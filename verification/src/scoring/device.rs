//! D component: device trust.
use vstd::prelude::*;
use crate::text;
use crate::timeutil;
use crate::context::{CaptchaBand, CredentialStatus, DeviceTrustLevel, RiskContext};
use crate::decision::{Factor, FactorView, ScoreComponent, factors_view};
use crate::scoring::{Candidate, rule, spec_fold, tracks, apply_rule, capped_add, capped_effect, names_rule, reports, lemma_names_rule_concat, lemma_fold_reports_only_fired, lemma_fold_reports_fired};

verus! {

/// The coarse browser family of a user-agent string (checked in this order).
pub open spec fn spec_ua_family(ua: Seq<char>) -> Seq<char> {
    let l = text::lower(ua);
    if text::contains(l, "edg/"@) || text::contains(l, "edge/"@) {
        "edge"@
    } else if text::contains(l, "vivaldi/"@) {
        "vivaldi"@
    } else if text::contains(l, "brave/"@) {
        "brave"@
    } else if text::contains(l, "firefox/"@) {
        "firefox"@
    } else if text::contains(l, "opr/"@) || text::contains(l, "opera"@) {
        "opera"@
    } else if text::contains(l, "safari/"@) && !text::contains(l, "chrome"@) {
        "safari"@
    } else if text::contains(l, "chrome/"@) {
        "chrome"@
    } else {
        "other"@
    }
}

/// A user agent that names Chrome (`chrome/`) names `chrome`.
proof fn lemma_chrome_slash_names_chrome(l: Seq<char>)
    requires
        text::contains(l, "chrome/"@),
    ensures
        text::contains(l, "chrome"@),
{
    reveal_strlit("chrome/");
    reveal_strlit("chrome");
    let i = choose|i: int| text::occurs_at(l, "chrome/"@, i);
    assert(l.subrange(i, i + 6) =~= l.subrange(i, i + 7).subrange(0, 6));
    assert("chrome/"@.subrange(0, 6) =~= "chrome"@);
    assert(text::occurs_at(l, "chrome"@, i));
}

/// How a user agent's family follows from the markers it carries (matched
/// without regard to case): it is `safari` only when it carries `safari/`
/// and does not mention Chrome, so a Chrome user agent (whose text also
/// carries `safari/`) is never taken for Safari; and a user agent that
/// carries `chrome/` and none of the Edge, Vivaldi, Brave, Firefox or Opera
/// markers is `chrome`.
pub proof fn lemma_ua_family_markers(ua: Seq<char>)
    ensures
        spec_ua_family(ua) == "safari"@ ==>
            text::contains(text::lower(ua), "safari/"@) && !text::contains(text::lower(ua), "chrome"@),
        ({
            let l = text::lower(ua);
            (text::contains(l, "chrome/"@) && !text::contains(l, "edg/"@) && !text::contains(l, "edge/"@)
                && !text::contains(l, "vivaldi/"@) && !text::contains(l, "brave/"@)
                && !text::contains(l, "firefox/"@) && !text::contains(l, "opr/"@) && !text::contains(l, "opera"@))
                ==> spec_ua_family(ua) == "chrome"@
        }),
{
    reveal_strlit("safari");
    reveal_strlit("chrome");
    reveal_strlit("edge");
    reveal_strlit("vivaldi");
    reveal_strlit("brave");
    reveal_strlit("firefox");
    reveal_strlit("opera");
    reveal_strlit("other");
    let l = text::lower(ua);
    if text::contains(l, "chrome/"@) {
        lemma_chrome_slash_names_chrome(l);
    }
    assert("safari"@[0] != "edge"@[0]);
    assert("safari"@.len() != "vivaldi"@.len());
    assert("safari"@[0] != "brave"@[0]);
    assert("safari"@.len() != "firefox"@.len());
    assert("safari"@[0] != "opera"@[0]);
    assert("safari"@[0] != "chrome"@[0]);
    assert("safari"@[0] != "other"@[0]);
}

/// Among the device rules, only the user-agent rules can carry the
/// family-mismatch name (every other rule name differs from it in length or
/// in its first letter).
proof fn lemma_only_ua_rule_named_mismatch(ctx: &RiskContext)
    ensures
        !names_rule(device_age_rule(ctx), "ua_family_mismatch"@),
        !names_rule(device_dormant_rule(ctx), "ua_family_mismatch"@),
        !names_rule(device_sign_count_rule(ctx), "ua_family_mismatch"@),
        !names_rule(device_webdriver_rule(ctx), "ua_family_mismatch"@),
        !names_rule(device_captcha_rule(ctx), "ua_family_mismatch"@),
        !names_rule(device_touch_rule(ctx), "ua_family_mismatch"@),
        !names_rule(device_resolution_rule(ctx), "ua_family_mismatch"@),
        !names_rule(device_fingerprint_rule(ctx), "ua_family_mismatch"@),
        !names_rule(device_ja3_rule(ctx), "ua_family_mismatch"@),
        !names_rule(device_trust_rule(ctx), "ua_family_mismatch"@),
        !names_rule(device_sole_credential_rule(ctx), "ua_family_mismatch"@),
{
    reveal(device_age_rule);
    reveal(device_dormant_rule);
    reveal(device_sign_count_rule);
    reveal(device_ua_rules);
    reveal(device_webdriver_rule);
    reveal(device_captcha_rule);
    reveal(device_touch_rule);
    reveal(device_resolution_rule);
    reveal(device_fingerprint_rule);
    reveal(device_ja3_rule);
    reveal(device_trust_rule);
    reveal(device_sole_credential_rule);
    reveal_strlit("bot_tls_fingerprint");
    reveal_strlit("captcha_score_low");
    reveal_strlit("captcha_score_very_low");
    reveal_strlit("credential_age");
    reveal_strlit("dormant_device");
    reveal_strlit("headless_ua");
    reveal_strlit("mobile_ua_no_touch");
    reveal_strlit("new_device");
    reveal_strlit("new_device_sensitive_action");
    reveal_strlit("no_device_fingerprint");
    reveal_strlit("recognized_device_sensitive");
    reveal_strlit("sign_count_jump");
    reveal_strlit("sign_count_jump_critical");
    reveal_strlit("sign_count_jump_high");
    reveal_strlit("sole_credential");
    reveal_strlit("suspicious_resolution");
    reveal_strlit("ua_family_mismatch");
    reveal_strlit("webdriver_detected");
    reveal_strlit("credential_lost");
    let n = "ua_family_mismatch"@;
    assert(n.len() == 18 && n[0] == 'u');
    let subs = seq![device_age_rule(ctx), device_dormant_rule(ctx), device_sign_count_rule(ctx), device_webdriver_rule(ctx), device_captcha_rule(ctx), device_touch_rule(ctx), device_resolution_rule(ctx), device_fingerprint_rule(ctx), device_ja3_rule(ctx), device_trust_rule(ctx), device_sole_credential_rule(ctx)];
    assert forall|k: int, j: int| 0 <= k < 11 && 0 <= j < subs[k].len()
        implies (#[trigger] subs[k][j]).name.len() != 18 || subs[k][j].name[0] != 'u' by {}
    assert forall|k: int| 0 <= k < 11 implies !names_rule(#[trigger] subs[k], n) by {
        if names_rule(subs[k], n) {
            let j = choose|j: int| 0 <= j < subs[k].len() && #[trigger] subs[k][j].name == n;
            assert(subs[k][j].name.len() != 18 || subs[k][j].name[0] != 'u');
        }
    }
    assert(subs[0] == device_age_rule(ctx));
    assert(subs[1] == device_dormant_rule(ctx));
    assert(subs[2] == device_sign_count_rule(ctx));
    assert(subs[3] == device_webdriver_rule(ctx));
    assert(subs[4] == device_captcha_rule(ctx));
    assert(subs[5] == device_touch_rule(ctx));
    assert(subs[6] == device_resolution_rule(ctx));
    assert(subs[7] == device_fingerprint_rule(ctx));
    assert(subs[8] == device_ja3_rule(ctx));
    assert(subs[9] == device_trust_rule(ctx));
    assert(subs[10] == device_sole_credential_rule(ctx));
}

/// The user-agent family mismatch is reported only when both the
/// registration and the request user agents are known and their families
/// differ. When they differ (and the credential is not lost), it is reported
/// unless the device points already reached their cap or the rule's weight
/// is zero.
pub proof fn lemma_ua_mismatch_iff_families_differ(ctx: &RiskContext)
    ensures
        reports(spec_score_device(ctx).1, "ua_family_mismatch"@) ==>
            (ctx.credential_registered_ua matches Some(reg) && ctx.request_ua matches Some(req)
                && spec_ua_family(reg@) != spec_ua_family(req@)),
        (ctx.credential_registered_ua matches Some(reg) && ctx.request_ua matches Some(req)
            && spec_ua_family(reg@) != spec_ua_family(req@)
            && ctx.credential_status != CredentialStatus::Lost && ctx.policy.d_ua_family_mismatch > 0) ==>
            reports(spec_score_device(ctx).1, "ua_family_mismatch"@)
            || spec_score_device(ctx).0 == ctx.policy.cap_device,
{
    let n = "ua_family_mismatch"@;
    reveal_strlit("ua_family_mismatch");
    reveal_strlit("credential_lost");
    reveal_strlit("headless_ua");
    lemma_only_ua_rule_named_mismatch(ctx);
    reveal(device_ua_rules);
    if ctx.credential_status == CredentialStatus::Lost {
        let fs = spec_score_device(ctx).1;
        if reports(fs, n) {
            let i = choose|i: int| 0 <= i < fs.len() && #[trigger] fs[i].name == n;
            assert(fs[i].name == "credential_lost"@);
        }
    } else {
        let e = Seq::<Candidate>::empty();
        let q1 = e + device_age_rule(ctx);
        lemma_names_rule_concat(e, device_age_rule(ctx), n);
        let q2 = q1 + device_dormant_rule(ctx);
        lemma_names_rule_concat(q1, device_dormant_rule(ctx), n);
        let q3 = q2 + device_sign_count_rule(ctx);
        lemma_names_rule_concat(q2, device_sign_count_rule(ctx), n);
        let q4 = q3 + device_ua_rules(ctx);
        lemma_names_rule_concat(q3, device_ua_rules(ctx), n);
        let q5 = q4 + device_webdriver_rule(ctx);
        lemma_names_rule_concat(q4, device_webdriver_rule(ctx), n);
        let q6 = q5 + device_captcha_rule(ctx);
        lemma_names_rule_concat(q5, device_captcha_rule(ctx), n);
        let q7 = q6 + device_touch_rule(ctx);
        lemma_names_rule_concat(q6, device_touch_rule(ctx), n);
        let q8 = q7 + device_resolution_rule(ctx);
        lemma_names_rule_concat(q7, device_resolution_rule(ctx), n);
        let q9 = q8 + device_fingerprint_rule(ctx);
        lemma_names_rule_concat(q8, device_fingerprint_rule(ctx), n);
        let q10 = q9 + device_ja3_rule(ctx);
        lemma_names_rule_concat(q9, device_ja3_rule(ctx), n);
        let q11 = q10 + device_trust_rule(ctx);
        lemma_names_rule_concat(q10, device_trust_rule(ctx), n);
        let q12 = q11 + device_sole_credential_rule(ctx);
        lemma_names_rule_concat(q11, device_sole_credential_rule(ctx), n);
        let rules = q12;
        assert(rules == device_rules(ctx));
        assert(!names_rule(e, n));
        lemma_fold_reports_only_fired(rules, ctx.policy.cap_device, ScoreComponent::Device, 0, n);
        let ua = device_ua_rules(ctx);
        if names_rule(ua, n) {
            let j = choose|j: int| 0 <= j < ua.len() && #[trigger] ua[j].name == n;
            assert(ua[j].name == n);
            if ua.len() > 0 && ua[0].name == "headless_ua"@ {
                assert(ua[j].name.len() != 11 || j == 0);
            }
        }
        match (ctx.credential_registered_ua, ctx.request_ua) {
            (Some(reg), Some(req)) => {
                if spec_ua_family(reg@) != spec_ua_family(req@) {
                    assert(ua[0].name == n && !ua[0].note && ua[0].weight == ctx.policy.d_ua_family_mismatch);
                    assert(rules[q3.len() as int] == ua[0]);
                    if ctx.policy.d_ua_family_mismatch > 0 {
                        lemma_fold_reports_fired(rules, ctx.policy.cap_device, ScoreComponent::Device, 0, q3.len() as int);
                    }
                }
            },
            _ => {},
        }
    }
}

/// Extracts a coarse browser family from a user-agent string.
pub fn ua_family(ua: &str) -> (r: &'static str)
    ensures
        r@ == spec_ua_family(ua@),
{
    let l = text::lower_chars(ua);
    if text::has(&l, "edg/") || text::has(&l, "edge/") {
        return "edge";
    }
    if text::has(&l, "vivaldi/") {
        return "vivaldi";
    }
    if text::has(&l, "brave/") {
        return "brave";
    }
    if text::has(&l, "firefox/") {
        return "firefox";
    }
    if text::has(&l, "opr/") || text::has(&l, "opera") {
        return "opera";
    }
    if text::has(&l, "safari/") && !text::has(&l, "chrome") {
        return "safari";
    }
    if text::has(&l, "chrome/") {
        return "chrome";
    }
    "other"
}

/// Whether two user-agents belong to different browser families.
pub fn ua_family_differs(registered: &str, current: &str) -> (r: bool)
    ensures
        r == (spec_ua_family(registered@) != spec_ua_family(current@)),
{
    let a = text::chars_of(ua_family(registered));
    let b = text::chars_of(ua_family(current));
    !text::chars_eq(&a, &b)
}

/// Substrings that mark a headless or scripted HTTP client.
pub const HEADLESS_MARKERS: [&'static str; 21] = [
    "headlesschrome",
    "phantomjs",
    "selenium",
    "puppeteer",
    "playwright",
    "python-requests",
    "curl/",
    "go-http-client",
    "node-fetch",
    "axios/",
    "scrapy",
    "httpclient",
    "java/",
    "okhttp",
    "libwww-perl",
    "wget/",
    "python-urllib",
    "httpx/",
    "aiohttp/",
    "undici/",
    "got/",
];

/// A user-agent of a headless/automation client: it contains one of the
/// markers (case-insensitive), or claims `mozilla/` without naming either
/// `applewebkit` or `gecko`.
pub open spec fn spec_is_headless_ua(ua: Seq<char>) -> bool {
    let l = text::lower(ua);
    ||| exists|i: int| 0 <= i < 21 && text::contains(l, #[trigger] text::table_view(HEADLESS_MARKERS)[i])
    ||| (text::contains(l, "mozilla/"@) && !text::contains(l, "applewebkit"@) && !text::contains(l, "gecko"@))
}

/// Whether the user-agent looks like a headless or scripted client.
pub fn is_headless_ua(ua: &str) -> (r: bool)
    ensures
        r == spec_is_headless_ua(ua@),
{
    let l = text::lower_chars(ua);
    let mut i: usize = 0;
    while i < 21
        invariant
            i <= 21,
            l@ == text::lower(ua@),
            forall|j: int| 0 <= j < i ==> !text::contains(l@, #[trigger] text::table_view(HEADLESS_MARKERS)[j]),
        decreases 21 - i,
    {
        let m = text::chars_of(HEADLESS_MARKERS[i]);
        if text::contains_exec(&l, &m) {
            assert(text::contains(l@, text::table_view(HEADLESS_MARKERS)[i as int]));
            return true;
        }
        i = i + 1;
    }
    text::has(&l, "mozilla/") && !text::has(&l, "applewebkit") && !text::has(&l, "gecko")
}

/// JA3 hashes of known automation TLS stacks.
pub const KNOWN_BOT_JA3: [&'static str; 7] = [
    "e7d705a3286e19ea42f587b344ee6865",
    "b32309a26951912be7dba376398abc3b",
    "3b5074b1b5d032e5620f69f9f700ff0e",
    "cd08e31494f9531f560d64c695473da9",
    "473cd7cb9faa642487833865d516e578",
    "a0e9f5d64349fb13191bc781f81f42e1",
    "6734f37431670b3ab4292b8f60f29984",
];

/// Whether a JA3 value is one of [`KNOWN_BOT_JA3`] (exact match).
pub open spec fn spec_is_known_bot_ja3(ja3: Seq<char>) -> bool {
    text::table_view(KNOWN_BOT_JA3).contains(ja3)
}

/// Whether a TLS fingerprint matches a known automation tool.
pub fn is_known_bot_ja3(ja3: &str) -> (r: bool)
    ensures
        r == spec_is_known_bot_ja3(ja3@),
{
    let v = text::chars_of(ja3);
    text::table_contains(&KNOWN_BOT_JA3, &v)
}

/// Screen resolutions typical of headless or CI browsers.
pub const SUSPICIOUS_RESOLUTIONS: [&'static str; 4] = ["800x600", "1024x768", "0x0", "1x1"];

/// Whether a resolution is one of [`SUSPICIOUS_RESOLUTIONS`] (exact match).
pub open spec fn spec_is_suspicious_resolution(res: Seq<char>) -> bool {
    text::table_view(SUSPICIOUS_RESOLUTIONS).contains(res)
}

/// Whether a screen resolution is a headless default.
pub fn is_suspicious_resolution(res: &str) -> (r: bool)
    ensures
        r == spec_is_suspicious_resolution(res@),
{
    let v = text::chars_of(res);
    text::table_contains(&SUSPICIOUS_RESOLUTIONS, &v)
}


// ─────────────────────────────────────────────────────────────────────────────
// The device rules, in evaluation order
// ─────────────────────────────────────────────────────────────────────────────

#[verifier::opaque]
pub open spec fn device_age_rule(ctx: &RiskContext) -> Seq<Candidate> {
    let m = timeutil::spec_minutes_between(ctx.evaluated_at_ms, ctx.credential_created_at_ms);
    if m < 60 {
        seq![rule("credential_age"@, ctx.policy.d_credential_age_new_h, "Credential registered less than 1 hour ago"@)]
    } else if m < 1440 {
        seq![rule("credential_age"@, ctx.policy.d_credential_age_recent_h, "Credential registered less than 24 hours ago"@)]
    } else if m < 4320 {
        seq![rule("credential_age"@, ctx.policy.d_credential_age_stale_h, "Credential registered less than 72 hours ago"@)]
    } else {
        seq![]
    }
}

#[verifier::opaque]
pub open spec fn device_dormant_rule(ctx: &RiskContext) -> Seq<Candidate> {
    match ctx.credential_last_used_at_ms {
        Some(last) => {
            let days = timeutil::spec_days_between(ctx.evaluated_at_ms, last);
            if days > 30 {
                seq![rule("dormant_device"@, ctx.policy.d_dormant_device,
                    "Device unused for "@ + text::decimal_int(days) + " days"@)]
            } else {
                seq![]
            }
        },
        None => seq![],
    }
}

/// `new - prev`, saturating at the `i64` bounds.
pub open spec fn sign_count_delta(ctx: &RiskContext) -> int {
    let d = ctx.credential_sign_count_new - ctx.credential_sign_count_prev;
    if d > i64::MAX { i64::MAX as int } else if d < i64::MIN { i64::MIN as int } else { d }
}

#[verifier::opaque]
pub open spec fn device_sign_count_rule(ctx: &RiskContext) -> Seq<Candidate> {
    let d = sign_count_delta(ctx);
    let desc = "Sign count jumped by "@ + text::decimal_int(d) + " (expected 1)"@;
    if d > 100 {
        seq![rule("sign_count_jump_critical"@, ctx.policy.d_sign_count_jump_high, desc)]
    } else if d > 10 {
        seq![rule("sign_count_jump_high"@, ctx.policy.d_sign_count_jump_med, desc)]
    } else if d > 1 {
        seq![rule("sign_count_jump"@, ctx.policy.d_sign_count_jump_low, desc)]
    } else {
        seq![]
    }
}

#[verifier::opaque]
pub open spec fn device_ua_rules(ctx: &RiskContext) -> Seq<Candidate> {
    match (ctx.credential_registered_ua, ctx.request_ua) {
        (Some(reg), Some(req)) => {
            (if spec_ua_family(reg@) != spec_ua_family(req@) {
                seq![rule("ua_family_mismatch"@, ctx.policy.d_ua_family_mismatch,
                    "Browser/OS family differs from registration user-agent"@)]
            } else {
                seq![]
            }) + (if spec_is_headless_ua(req@) {
                seq![rule("headless_ua"@, ctx.policy.d_headless_ua,
                    "Request user-agent matches a headless/automation client"@)]
            } else {
                seq![]
            })
        },
        _ => seq![],
    }
}

#[verifier::opaque]
pub open spec fn device_webdriver_rule(ctx: &RiskContext) -> Seq<Candidate> {
    if ctx.webdriver_detected == Some(true) {
        seq![rule("webdriver_detected"@, ctx.policy.d_webdriver_detected,
            "Client reports navigator.webdriver=true (browser automation detected)"@)]
    } else {
        seq![]
    }
}

#[verifier::opaque]
pub open spec fn device_captcha_rule(ctx: &RiskContext) -> Seq<Candidate> {
    match ctx.captcha_score {
        Some(c) => match c.band {
            CaptchaBand::Critical => seq![rule("captcha_score_very_low"@, ctx.policy.d_captcha_fail_critical,
                "CAPTCHA score "@ + c.text@ + " indicates likely bot (< 0.3 threshold)"@)],
            CaptchaBand::Suspicious => seq![rule("captcha_score_low"@, ctx.policy.d_captcha_fail_suspicious,
                "CAPTCHA score "@ + c.text@ + " is suspicious (< 0.5 threshold)"@)],
            CaptchaBand::Passing => seq![],
        },
        None => seq![],
    }
}

/// A user-agent that names a mobile platform.
pub open spec fn spec_is_mobile_ua(ua: Seq<char>) -> bool {
    let l = text::lower(ua);
    text::contains(l, "mobile"@) || text::contains(l, "android"@) || text::contains(l, "iphone"@)
        || text::contains(l, "ipad"@)
}

#[verifier::opaque]
pub open spec fn device_touch_rule(ctx: &RiskContext) -> Seq<Candidate> {
    match (ctx.request_ua, ctx.touch_capable) {
        (Some(ua), Some(touch)) => if spec_is_mobile_ua(ua@) && !touch {
            seq![rule("mobile_ua_no_touch"@, ctx.policy.d_touch_mismatch,
                "Mobile user-agent but device reports no touch capability (emulation suspected)"@)]
        } else {
            seq![]
        },
        _ => seq![],
    }
}

#[verifier::opaque]
pub open spec fn device_resolution_rule(ctx: &RiskContext) -> Seq<Candidate> {
    match ctx.screen_resolution {
        Some(res) => if spec_is_suspicious_resolution(res@) {
            seq![rule("suspicious_resolution"@, ctx.policy.d_screen_res_suspicious,
                "Screen resolution "@ + res@ + " is common in headless/automated environments"@)]
        } else {
            seq![]
        },
        None => seq![],
    }
}

#[verifier::opaque]
pub open spec fn device_fingerprint_rule(ctx: &RiskContext) -> Seq<Candidate> {
    if ctx.device_fingerprint_hash is None && ctx.action.spec_is_sensitive() {
        seq![rule("no_device_fingerprint"@, ctx.policy.d_no_device_fingerprint,
            "No client-side device fingerprint provided on sensitive action"@)]
    } else {
        seq![]
    }
}

#[verifier::opaque]
pub open spec fn device_ja3_rule(ctx: &RiskContext) -> Seq<Candidate> {
    match ctx.ja3_fingerprint {
        Some(j) => if spec_is_known_bot_ja3(j@) {
            seq![rule("bot_tls_fingerprint"@, ctx.policy.d_bot_tls_fingerprint,
                "TLS fingerprint matches known automation tool"@)]
        } else {
            seq![]
        },
        None => seq![],
    }
}

#[verifier::opaque]
pub open spec fn device_trust_rule(ctx: &RiskContext) -> Seq<Candidate> {
    let sensitive = ctx.action.spec_is_sensitive();
    match ctx.device_trust_level {
        Some(DeviceTrustLevel::New) => if sensitive {
            seq![rule("new_device_sensitive_action"@, ctx.policy.d_trust_new_device_sensitive,
                "First-time device attempting a sensitive action"@)]
        } else {
            seq![rule("new_device"@, ctx.policy.d_trust_new_device,
                "Device has not been seen before for this user"@)]
        },
        Some(DeviceTrustLevel::Recognized) => if sensitive {
            seq![rule("recognized_device_sensitive"@, ctx.policy.d_trust_recognized_sensitive,
                "Partially-trusted device on sensitive action (seen <7 days or <5 sessions)"@)]
        } else {
            seq![]
        },
        _ => seq![],
    }
}

#[verifier::opaque]
pub open spec fn device_sole_credential_rule(ctx: &RiskContext) -> Seq<Candidate> {
    if ctx.credential_count_for_user == 1 {
        seq![rule("sole_credential"@, ctx.policy.d_sole_credential,
            "This is the only active credential for the user (no fallback)"@)]
    } else {
        seq![]
    }
}

/// The device rules that fire for a credential that is not lost, in order.
pub open spec fn device_rules(ctx: &RiskContext) -> Seq<Candidate> {
    Seq::empty() + device_age_rule(ctx) + device_dormant_rule(ctx) + device_sign_count_rule(ctx)
        + device_ua_rules(ctx) + device_webdriver_rule(ctx) + device_captcha_rule(ctx)
        + device_touch_rule(ctx) + device_resolution_rule(ctx) + device_fingerprint_rule(ctx)
        + device_ja3_rule(ctx) + device_trust_rule(ctx) + device_sole_credential_rule(ctx)
}

/// The D component and the factors it reports. A lost credential scores the
/// lost-device weight (capped) and reports exactly that one factor, whatever
/// its value.
pub open spec fn spec_score_device(ctx: &RiskContext) -> (u8, Seq<FactorView>) {
    if ctx.credential_status == CredentialStatus::Lost {
        let d = capped_effect(0, ctx.policy.cap_device, ctx.policy.d_credential_lost);
        (d, seq![FactorView {
            name: "credential_lost"@,
            component: ScoreComponent::Device,
            contribution: d,
            description: "Device is explicitly marked as lost"@,
        }])
    } else {
        spec_fold(device_rules(ctx), ctx.policy.cap_device, ScoreComponent::Device, 0)
    }
}

fn is_mobile_ua(ua: &str) -> (r: bool)
    ensures
        r == spec_is_mobile_ua(ua@),
{
    let l = text::lower_chars(ua);
    text::has(&l, "mobile") || text::has(&l, "android") || text::has(&l, "iphone") || text::has(&l, "ipad")
}

/// Device rule step: Credential age.
fn step_device_age_rule(ctx: &RiskContext, d: &mut u8, factors: &mut Vec<Factor>, Ghost(base): Ghost<Seq<FactorView>>, Ghost(prev): Ghost<Seq<Candidate>>)
    requires
        tracks(*old(d), old(factors)@, base, prev, ctx.policy.cap_device, ScoreComponent::Device, 0),
    ensures
        tracks(*final(d), final(factors)@, base, prev + device_age_rule(ctx), ctx.policy.cap_device, ScoreComponent::Device, 0),
{
    reveal(device_age_rule);
    let cap = ctx.policy.cap_device;
    let p = &ctx.policy;
    let comp = ScoreComponent::Device;
    let ghost cands = prev;
    let age = timeutil::minutes_between(ctx.evaluated_at_ms, ctx.credential_created_at_ms);
    if age < 60 {
        apply_rule(d, cap, comp, factors, "credential_age", p.d_credential_age_new_h,
            text::owned("Credential registered less than 1 hour ago"), Ghost(base), Ghost(cands), Ghost(0));
    } else if age < 1440 {
        apply_rule(d, cap, comp, factors, "credential_age", p.d_credential_age_recent_h,
            text::owned("Credential registered less than 24 hours ago"), Ghost(base), Ghost(cands), Ghost(0));
    } else if age < 4320 {
        apply_rule(d, cap, comp, factors, "credential_age", p.d_credential_age_stale_h,
            text::owned("Credential registered less than 72 hours ago"), Ghost(base), Ghost(cands), Ghost(0));
    }
    proof {
        if device_age_rule(ctx).len() == 1 {
            assert(prev.push(device_age_rule(ctx)[0]) =~= prev + device_age_rule(ctx));
        } else {
            assert(prev =~= prev + device_age_rule(ctx));
        }
    }
}

/// Device rule step: Dormant device.
fn step_device_dormant_rule(ctx: &RiskContext, d: &mut u8, factors: &mut Vec<Factor>, Ghost(base): Ghost<Seq<FactorView>>, Ghost(prev): Ghost<Seq<Candidate>>)
    requires
        tracks(*old(d), old(factors)@, base, prev, ctx.policy.cap_device, ScoreComponent::Device, 0),
    ensures
        tracks(*final(d), final(factors)@, base, prev + device_dormant_rule(ctx), ctx.policy.cap_device, ScoreComponent::Device, 0),
{
    reveal(device_dormant_rule);
    let cap = ctx.policy.cap_device;
    let p = &ctx.policy;
    let comp = ScoreComponent::Device;
    let ghost cands = prev;
    if let Some(last_used) = ctx.credential_last_used_at_ms {
        let days = timeutil::days_between(ctx.evaluated_at_ms, last_used);
        if days > 30 {
            apply_rule(d, cap, comp, factors, "dormant_device", p.d_dormant_device,
                text::with_signed_number("Device unused for ", days, " days"), Ghost(base), Ghost(cands), Ghost(0));
        }
    }
    proof {
        if device_dormant_rule(ctx).len() == 1 {
            assert(prev.push(device_dormant_rule(ctx)[0]) =~= prev + device_dormant_rule(ctx));
        } else {
            assert(prev =~= prev + device_dormant_rule(ctx));
        }
    }
}

/// Device rule step: Sign-count anomaly.
fn step_device_sign_count_rule(ctx: &RiskContext, d: &mut u8, factors: &mut Vec<Factor>, Ghost(base): Ghost<Seq<FactorView>>, Ghost(prev): Ghost<Seq<Candidate>>)
    requires
        tracks(*old(d), old(factors)@, base, prev, ctx.policy.cap_device, ScoreComponent::Device, 0),
    ensures
        tracks(*final(d), final(factors)@, base, prev + device_sign_count_rule(ctx), ctx.policy.cap_device, ScoreComponent::Device, 0),
{
    reveal(device_sign_count_rule);
    let cap = ctx.policy.cap_device;
    let p = &ctx.policy;
    let comp = ScoreComponent::Device;
    let ghost cands = prev;
    let wide: i128 = ctx.credential_sign_count_new as i128 - ctx.credential_sign_count_prev as i128;
    let delta: i64 = if wide > i64::MAX as i128 {
        i64::MAX
    } else if wide < i64::MIN as i128 {
        i64::MIN
    } else {
        wide as i64
    };
    if delta > 100 {
        apply_rule(d, cap, comp, factors, "sign_count_jump_critical", p.d_sign_count_jump_high,
            text::with_signed_number("Sign count jumped by ", delta, " (expected 1)"), Ghost(base), Ghost(cands), Ghost(0));
    } else if delta > 10 {
        apply_rule(d, cap, comp, factors, "sign_count_jump_high", p.d_sign_count_jump_med,
            text::with_signed_number("Sign count jumped by ", delta, " (expected 1)"), Ghost(base), Ghost(cands), Ghost(0));
    } else if delta > 1 {
        apply_rule(d, cap, comp, factors, "sign_count_jump", p.d_sign_count_jump_low,
            text::with_signed_number("Sign count jumped by ", delta, " (expected 1)"), Ghost(base), Ghost(cands), Ghost(0));
    }
    proof {
        if device_sign_count_rule(ctx).len() == 1 {
            assert(prev.push(device_sign_count_rule(ctx)[0]) =~= prev + device_sign_count_rule(ctx));
        } else {
            assert(prev =~= prev + device_sign_count_rule(ctx));
        }
    }
}

/// Device rule step: User-agent checks.
fn step_device_ua_rules(ctx: &RiskContext, d: &mut u8, factors: &mut Vec<Factor>, Ghost(base): Ghost<Seq<FactorView>>, Ghost(prev): Ghost<Seq<Candidate>>)
    requires
        tracks(*old(d), old(factors)@, base, prev, ctx.policy.cap_device, ScoreComponent::Device, 0),
    ensures
        tracks(*final(d), final(factors)@, base, prev + device_ua_rules(ctx), ctx.policy.cap_device, ScoreComponent::Device, 0),
{
    reveal(device_ua_rules);
    let cap = ctx.policy.cap_device;
    let p = &ctx.policy;
    let comp = ScoreComponent::Device;
    if let (Some(reg_ua), Some(req_ua)) = (&ctx.credential_registered_ua, &ctx.request_ua) {
        let ghost r1 = rule("ua_family_mismatch"@, p.d_ua_family_mismatch,
            "Browser/OS family differs from registration user-agent"@);
        let ghost r2 = rule("headless_ua"@, p.d_headless_ua,
            "Request user-agent matches a headless/automation client"@);
        let differs = ua_family_differs(reg_ua.as_str(), req_ua.as_str());
        let ghost first = if differs { seq![r1] } else { Seq::<Candidate>::empty() };
        if differs {
            apply_rule(d, cap, comp, factors, "ua_family_mismatch", p.d_ua_family_mismatch,
                text::owned("Browser/OS family differs from registration user-agent"), Ghost(base), Ghost(prev), Ghost(0));
            assert(prev.push(r1) =~= prev + first);
        } else {
            assert(prev =~= prev + first);
        }
        let headless = is_headless_ua(req_ua.as_str());
        let ghost second = if headless { seq![r2] } else { Seq::<Candidate>::empty() };
        if headless {
            apply_rule(d, cap, comp, factors, "headless_ua", p.d_headless_ua,
                text::owned("Request user-agent matches a headless/automation client"), Ghost(base), Ghost(prev + first), Ghost(0));
            assert((prev + first).push(r2) =~= prev + first + second);
        } else {
            assert(prev + first =~= prev + first + second);
        }
        assert(first + second =~= device_ua_rules(ctx));
        assert(prev + first + second =~= prev + device_ua_rules(ctx));
    } else {
        assert(prev =~= prev + device_ua_rules(ctx));
    }
}

/// Device rule step: WebDriver detection.
fn step_device_webdriver_rule(ctx: &RiskContext, d: &mut u8, factors: &mut Vec<Factor>, Ghost(base): Ghost<Seq<FactorView>>, Ghost(prev): Ghost<Seq<Candidate>>)
    requires
        tracks(*old(d), old(factors)@, base, prev, ctx.policy.cap_device, ScoreComponent::Device, 0),
    ensures
        tracks(*final(d), final(factors)@, base, prev + device_webdriver_rule(ctx), ctx.policy.cap_device, ScoreComponent::Device, 0),
{
    reveal(device_webdriver_rule);
    let cap = ctx.policy.cap_device;
    let p = &ctx.policy;
    let comp = ScoreComponent::Device;
    let ghost cands = prev;
    if ctx.webdriver_detected == Some(true) {
        apply_rule(d, cap, comp, factors, "webdriver_detected", p.d_webdriver_detected,
            text::owned("Client reports navigator.webdriver=true (browser automation detected)"), Ghost(base), Ghost(cands), Ghost(0));
    }
    proof {
        if device_webdriver_rule(ctx).len() == 1 {
            assert(prev.push(device_webdriver_rule(ctx)[0]) =~= prev + device_webdriver_rule(ctx));
        } else {
            assert(prev =~= prev + device_webdriver_rule(ctx));
        }
    }
}

/// Device rule step: CAPTCHA score.
fn step_device_captcha_rule(ctx: &RiskContext, d: &mut u8, factors: &mut Vec<Factor>, Ghost(base): Ghost<Seq<FactorView>>, Ghost(prev): Ghost<Seq<Candidate>>)
    requires
        tracks(*old(d), old(factors)@, base, prev, ctx.policy.cap_device, ScoreComponent::Device, 0),
    ensures
        tracks(*final(d), final(factors)@, base, prev + device_captcha_rule(ctx), ctx.policy.cap_device, ScoreComponent::Device, 0),
{
    reveal(device_captcha_rule);
    let cap = ctx.policy.cap_device;
    let p = &ctx.policy;
    let comp = ScoreComponent::Device;
    let ghost cands = prev;
    if let Some(c) = &ctx.captcha_score {
        match c.band {
            CaptchaBand::Critical => {
                apply_rule(d, cap, comp, factors, "captcha_score_very_low", p.d_captcha_fail_critical,
                    text::concat3("CAPTCHA score ", c.text.as_str(), " indicates likely bot (< 0.3 threshold)"),
                    Ghost(base), Ghost(cands), Ghost(0));
            },
            CaptchaBand::Suspicious => {
                apply_rule(d, cap, comp, factors, "captcha_score_low", p.d_captcha_fail_suspicious,
                    text::concat3("CAPTCHA score ", c.text.as_str(), " is suspicious (< 0.5 threshold)"),
                    Ghost(base), Ghost(cands), Ghost(0));
            },
            CaptchaBand::Passing => {},
        }
    }
    proof {
        if device_captcha_rule(ctx).len() == 1 {
            assert(prev.push(device_captcha_rule(ctx)[0]) =~= prev + device_captcha_rule(ctx));
        } else {
            assert(prev =~= prev + device_captcha_rule(ctx));
        }
    }
}

/// Device rule step: Touch capability mismatch.
fn step_device_touch_rule(ctx: &RiskContext, d: &mut u8, factors: &mut Vec<Factor>, Ghost(base): Ghost<Seq<FactorView>>, Ghost(prev): Ghost<Seq<Candidate>>)
    requires
        tracks(*old(d), old(factors)@, base, prev, ctx.policy.cap_device, ScoreComponent::Device, 0),
    ensures
        tracks(*final(d), final(factors)@, base, prev + device_touch_rule(ctx), ctx.policy.cap_device, ScoreComponent::Device, 0),
{
    reveal(device_touch_rule);
    let cap = ctx.policy.cap_device;
    let p = &ctx.policy;
    let comp = ScoreComponent::Device;
    let ghost cands = prev;
    if let (Some(ua), Some(touch)) = (&ctx.request_ua, ctx.touch_capable) {
        if is_mobile_ua(ua.as_str()) && !touch {
            apply_rule(d, cap, comp, factors, "mobile_ua_no_touch", p.d_touch_mismatch,
                text::owned("Mobile user-agent but device reports no touch capability (emulation suspected)"),
                Ghost(base), Ghost(cands), Ghost(0));
        }
    }
    proof {
        if device_touch_rule(ctx).len() == 1 {
            assert(prev.push(device_touch_rule(ctx)[0]) =~= prev + device_touch_rule(ctx));
        } else {
            assert(prev =~= prev + device_touch_rule(ctx));
        }
    }
}

/// Device rule step: Headless screen resolution.
fn step_device_resolution_rule(ctx: &RiskContext, d: &mut u8, factors: &mut Vec<Factor>, Ghost(base): Ghost<Seq<FactorView>>, Ghost(prev): Ghost<Seq<Candidate>>)
    requires
        tracks(*old(d), old(factors)@, base, prev, ctx.policy.cap_device, ScoreComponent::Device, 0),
    ensures
        tracks(*final(d), final(factors)@, base, prev + device_resolution_rule(ctx), ctx.policy.cap_device, ScoreComponent::Device, 0),
{
    reveal(device_resolution_rule);
    let cap = ctx.policy.cap_device;
    let p = &ctx.policy;
    let comp = ScoreComponent::Device;
    let ghost cands = prev;
    if let Some(res) = &ctx.screen_resolution {
        if is_suspicious_resolution(res.as_str()) {
            apply_rule(d, cap, comp, factors, "suspicious_resolution", p.d_screen_res_suspicious,
                text::concat3("Screen resolution ", res.as_str(), " is common in headless/automated environments"),
                Ghost(base), Ghost(cands), Ghost(0));
        }
    }
    proof {
        if device_resolution_rule(ctx).len() == 1 {
            assert(prev.push(device_resolution_rule(ctx)[0]) =~= prev + device_resolution_rule(ctx));
        } else {
            assert(prev =~= prev + device_resolution_rule(ctx));
        }
    }
}

/// Device rule step: Device fingerprint absence on sensitive action.
fn step_device_fingerprint_rule(ctx: &RiskContext, d: &mut u8, factors: &mut Vec<Factor>, Ghost(base): Ghost<Seq<FactorView>>, Ghost(prev): Ghost<Seq<Candidate>>)
    requires
        tracks(*old(d), old(factors)@, base, prev, ctx.policy.cap_device, ScoreComponent::Device, 0),
    ensures
        tracks(*final(d), final(factors)@, base, prev + device_fingerprint_rule(ctx), ctx.policy.cap_device, ScoreComponent::Device, 0),
{
    reveal(device_fingerprint_rule);
    let cap = ctx.policy.cap_device;
    let p = &ctx.policy;
    let comp = ScoreComponent::Device;
    let ghost cands = prev;
    if ctx.device_fingerprint_hash.is_none() && ctx.action.is_sensitive() {
        apply_rule(d, cap, comp, factors, "no_device_fingerprint", p.d_no_device_fingerprint,
            text::owned("No client-side device fingerprint provided on sensitive action"), Ghost(base), Ghost(cands), Ghost(0));
    }
    proof {
        if device_fingerprint_rule(ctx).len() == 1 {
            assert(prev.push(device_fingerprint_rule(ctx)[0]) =~= prev + device_fingerprint_rule(ctx));
        } else {
            assert(prev =~= prev + device_fingerprint_rule(ctx));
        }
    }
}

/// Device rule step: JA3 TLS fingerprint.
fn step_device_ja3_rule(ctx: &RiskContext, d: &mut u8, factors: &mut Vec<Factor>, Ghost(base): Ghost<Seq<FactorView>>, Ghost(prev): Ghost<Seq<Candidate>>)
    requires
        tracks(*old(d), old(factors)@, base, prev, ctx.policy.cap_device, ScoreComponent::Device, 0),
    ensures
        tracks(*final(d), final(factors)@, base, prev + device_ja3_rule(ctx), ctx.policy.cap_device, ScoreComponent::Device, 0),
{
    reveal(device_ja3_rule);
    let cap = ctx.policy.cap_device;
    let p = &ctx.policy;
    let comp = ScoreComponent::Device;
    let ghost cands = prev;
    if let Some(ja3) = &ctx.ja3_fingerprint {
        if is_known_bot_ja3(ja3.as_str()) {
            apply_rule(d, cap, comp, factors, "bot_tls_fingerprint", p.d_bot_tls_fingerprint,
                text::owned("TLS fingerprint matches known automation tool"), Ghost(base), Ghost(cands), Ghost(0));
        }
    }
    proof {
        if device_ja3_rule(ctx).len() == 1 {
            assert(prev.push(device_ja3_rule(ctx)[0]) =~= prev + device_ja3_rule(ctx));
        } else {
            assert(prev =~= prev + device_ja3_rule(ctx));
        }
    }
}

/// Device rule step: Device trust level.
fn step_device_trust_rule(ctx: &RiskContext, d: &mut u8, factors: &mut Vec<Factor>, Ghost(base): Ghost<Seq<FactorView>>, Ghost(prev): Ghost<Seq<Candidate>>)
    requires
        tracks(*old(d), old(factors)@, base, prev, ctx.policy.cap_device, ScoreComponent::Device, 0),
    ensures
        tracks(*final(d), final(factors)@, base, prev + device_trust_rule(ctx), ctx.policy.cap_device, ScoreComponent::Device, 0),
{
    reveal(device_trust_rule);
    let cap = ctx.policy.cap_device;
    let p = &ctx.policy;
    let comp = ScoreComponent::Device;
    let ghost cands = prev;
    let sensitive = ctx.action.is_sensitive();
    match &ctx.device_trust_level {
        Some(DeviceTrustLevel::New) => {
            if sensitive {
                apply_rule(d, cap, comp, factors, "new_device_sensitive_action", p.d_trust_new_device_sensitive,
                    text::owned("First-time device attempting a sensitive action"), Ghost(base), Ghost(cands), Ghost(0));
            } else {
                apply_rule(d, cap, comp, factors, "new_device", p.d_trust_new_device,
                    text::owned("Device has not been seen before for this user"), Ghost(base), Ghost(cands), Ghost(0));
            }
        },
        Some(DeviceTrustLevel::Recognized) => {
            if sensitive {
                apply_rule(d, cap, comp, factors, "recognized_device_sensitive", p.d_trust_recognized_sensitive,
                    text::owned("Partially-trusted device on sensitive action (seen <7 days or <5 sessions)"),
                    Ghost(base), Ghost(cands), Ghost(0));
            }
        },
        _ => {},
    }
    proof {
        if device_trust_rule(ctx).len() == 1 {
            assert(prev.push(device_trust_rule(ctx)[0]) =~= prev + device_trust_rule(ctx));
        } else {
            assert(prev =~= prev + device_trust_rule(ctx));
        }
    }
}

/// Device rule step: Sole credential.
fn step_device_sole_credential_rule(ctx: &RiskContext, d: &mut u8, factors: &mut Vec<Factor>, Ghost(base): Ghost<Seq<FactorView>>, Ghost(prev): Ghost<Seq<Candidate>>)
    requires
        tracks(*old(d), old(factors)@, base, prev, ctx.policy.cap_device, ScoreComponent::Device, 0),
    ensures
        tracks(*final(d), final(factors)@, base, prev + device_sole_credential_rule(ctx), ctx.policy.cap_device, ScoreComponent::Device, 0),
{
    reveal(device_sole_credential_rule);
    let cap = ctx.policy.cap_device;
    let p = &ctx.policy;
    let comp = ScoreComponent::Device;
    let ghost cands = prev;
    if ctx.credential_count_for_user == 1 {
        apply_rule(d, cap, comp, factors, "sole_credential", p.d_sole_credential,
            text::owned("This is the only active credential for the user (no fallback)"), Ghost(base), Ghost(cands), Ghost(0));
    }
    proof {
        if device_sole_credential_rule(ctx).len() == 1 {
            assert(prev.push(device_sole_credential_rule(ctx)[0]) =~= prev + device_sole_credential_rule(ctx));
        } else {
            assert(prev =~= prev + device_sole_credential_rule(ctx));
        }
    }
}

/// D component — device trust score; appends the factors it reports.
pub fn score_device(ctx: &RiskContext, factors: &mut Vec<Factor>) -> (d: u8)
    ensures
        d == spec_score_device(ctx).0,
        factors_view(final(factors)@) == factors_view(old(factors)@) + spec_score_device(ctx).1,
{
    let cap = ctx.policy.cap_device;
    let comp = ScoreComponent::Device;
    let ghost base = factors_view(factors@);
    let mut d: u8 = 0;

    if ctx.credential_status == CredentialStatus::Lost {
        capped_add(&mut d, cap, ctx.policy.d_credential_lost);
        let f = crate::scoring::factor("credential_lost", comp, d, text::owned("Device is explicitly marked as lost"));
        let ghost before = factors@;
        factors.push(f);
        proof {
            assert(factors_view(factors@) =~= factors_view(before).push(f@));
            assert(factors_view(before).push(f@) =~= base + spec_score_device(ctx).1);
        }
        return d;
    }
    proof {
        assert(base + Seq::<FactorView>::empty() =~= base);
    }
    let ghost c0: Seq<Candidate> = Seq::empty();
    step_device_age_rule(ctx, &mut d, factors, Ghost(base), Ghost(c0));
    let ghost c1 = c0 + device_age_rule(ctx);
    step_device_dormant_rule(ctx, &mut d, factors, Ghost(base), Ghost(c1));
    let ghost c2 = c1 + device_dormant_rule(ctx);
    step_device_sign_count_rule(ctx, &mut d, factors, Ghost(base), Ghost(c2));
    let ghost c3 = c2 + device_sign_count_rule(ctx);
    step_device_ua_rules(ctx, &mut d, factors, Ghost(base), Ghost(c3));
    let ghost c4 = c3 + device_ua_rules(ctx);
    step_device_webdriver_rule(ctx, &mut d, factors, Ghost(base), Ghost(c4));
    let ghost c5 = c4 + device_webdriver_rule(ctx);
    step_device_captcha_rule(ctx, &mut d, factors, Ghost(base), Ghost(c5));
    let ghost c6 = c5 + device_captcha_rule(ctx);
    step_device_touch_rule(ctx, &mut d, factors, Ghost(base), Ghost(c6));
    let ghost c7 = c6 + device_touch_rule(ctx);
    step_device_resolution_rule(ctx, &mut d, factors, Ghost(base), Ghost(c7));
    let ghost c8 = c7 + device_resolution_rule(ctx);
    step_device_fingerprint_rule(ctx, &mut d, factors, Ghost(base), Ghost(c8));
    let ghost c9 = c8 + device_fingerprint_rule(ctx);
    step_device_ja3_rule(ctx, &mut d, factors, Ghost(base), Ghost(c9));
    let ghost c10 = c9 + device_ja3_rule(ctx);
    step_device_trust_rule(ctx, &mut d, factors, Ghost(base), Ghost(c10));
    let ghost c11 = c10 + device_trust_rule(ctx);
    step_device_sole_credential_rule(ctx, &mut d, factors, Ghost(base), Ghost(c11));
    let ghost c12 = c11 + device_sole_credential_rule(ctx);
    d
}

} // verus!
