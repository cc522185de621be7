use risk_engine::context::{AsnType, IpAddress, IpValue};
use risk_engine::signals::breach::{
    hibp_body_contains, sha1_prefix_and_suffix, NoopBreachChecker, StaticBreachChecker,
};
use risk_engine::signals::client_sdk::{
    parse_bool, parse_fingerprint_hash, parse_ja3, parse_screen_resolution, MAX_FINGERPRINT_LEN,
    MAX_JA3_LEN,
};
use risk_engine::signals::disposable_email::{
    extract_domain, is_disposable, DisposableDomains, BUILTIN_DISPOSABLE_DOMAINS,
};
use risk_engine::signals::fingerprint::{compute_jwt_fingerprint, jwt_fingerprint_key};
use risk_engine::signals::geoip::classify_asn_org;
use risk_engine::signals::ip_reputation::{IpReputation, NoopIpReputation, StaticIpReputation};
use risk_engine::signals::metrics::{
    bool_result, record_classification, record_error, ClassificationResult, EnrichmentSource,
};
use risk_engine::signals::sanctions::{is_sanctioned, SANCTIONED_COUNTRIES};

// ── client SDK headers ────────────────────────────────────────────────────────

#[test]
fn parse_bool_accepts_common_forms() {
    for t in ["true", "TRUE", "1", "yes", " Yes "] {
        assert_eq!(parse_bool(t), Some(true), "{t}");
    }
    for f in ["false", "FALSE", "0", "no"] {
        assert_eq!(parse_bool(f), Some(false), "{f}");
    }
    for bad in ["", "maybe", "2", "null"] {
        assert_eq!(parse_bool(bad), None, "{bad}");
    }
}

#[test]
fn screen_resolution_validates_shape_and_bounds() {
    assert_eq!(parse_screen_resolution("1920x1080"), Some("1920x1080".into()));
    assert_eq!(parse_screen_resolution("1920X1080"), Some("1920x1080".into()));
    assert_eq!(parse_screen_resolution("  800 x 600 "), Some("800x600".into()));
    assert_eq!(parse_screen_resolution("0x600"), None);
    assert_eq!(parse_screen_resolution("100000x100"), None);
    assert_eq!(parse_screen_resolution("1920"), None);
    assert_eq!(parse_screen_resolution("1920x"), None);
    assert_eq!(parse_screen_resolution("1920xabc"), None);
}

#[test]
fn fingerprint_hash_requires_hex_and_bounded_length() {
    assert_eq!(parse_fingerprint_hash("DEADBEEF"), Some("deadbeef".into()));
    assert_eq!(parse_fingerprint_hash(" abc123 "), Some("abc123".into()));
    assert_eq!(parse_fingerprint_hash("zzz"), None);
    assert_eq!(parse_fingerprint_hash(""), None);
    let too_long = "a".repeat(MAX_FINGERPRINT_LEN + 1);
    assert_eq!(parse_fingerprint_hash(&too_long), None);
}

#[test]
fn ja3_accepts_raw_and_hashed_forms() {
    assert!(parse_ja3("e7d705a3286e19ea42f587b344ee6865").is_some());
    assert!(parse_ja3("771,4865-4866,0-23-65281,29-23-24,0").is_some());
    assert_eq!(parse_ja3(""), None);
    assert_eq!(parse_ja3("has spaces"), None);
    assert_eq!(parse_ja3("control\x01char"), None);
    let too_long = "a".repeat(MAX_JA3_LEN + 1);
    assert_eq!(parse_ja3(&too_long), None);
}

#[test]
fn fingerprint_hash_at_the_length_limit_is_accepted() {
    let at_limit = "A".repeat(MAX_FINGERPRINT_LEN);
    assert_eq!(parse_fingerprint_hash(&at_limit), Some("a".repeat(MAX_FINGERPRINT_LEN)));
}

// ── disposable e-mail ─────────────────────────────────────────────────────────

#[test]
fn builtin_list_is_sorted_and_lowercase() {
    let mut prev = "";
    for d in BUILTIN_DISPOSABLE_DOMAINS.iter() {
        assert_eq!(*d, d.to_lowercase(), "{d} must be lowercase");
        assert!(*d > prev, "{d} must come after {prev} (list must be sorted)");
        prev = d;
    }
}

#[test]
fn known_disposable_domains_match() {
    assert!(is_disposable("mailinator.com"));
    assert!(is_disposable("yopmail.com"));
    assert!(is_disposable("guerrillamail.com"));
    assert!(is_disposable("tempmail.com"));
}

#[test]
fn case_insensitive_match() {
    assert!(is_disposable("MAILINATOR.COM"));
    assert!(is_disposable("MailInator.com"));
}

#[test]
fn legitimate_providers_do_not_match() {
    for d in ["gmail.com", "outlook.com", "proton.me", "icloud.com"] {
        assert!(!is_disposable(d));
    }
}

#[test]
fn forwarders_not_in_list() {
    for d in ["simplelogin.io", "duck.com", "33mail.com"] {
        assert!(!is_disposable(d), "forwarder {d} should NOT be flagged");
    }
}

#[test]
fn extract_domain_handles_common_shapes() {
    assert_eq!(extract_domain("a@b.com"), Some("b.com".into()));
    assert_eq!(extract_domain("Mixed@Case.COM"), Some("case.com".into()));
    assert_eq!(extract_domain("  u@host  "), Some("host".into()));
    assert_eq!(extract_domain("u+tag@gmail.com"), Some("gmail.com".into()));
    assert_eq!(
        extract_domain("\"weird@local\"@example.org"),
        Some("example.org".into())
    );
}

#[test]
fn extract_domain_rejects_malformed() {
    assert_eq!(extract_domain(""), None);
    assert_eq!(extract_domain("noatsign"), None);
    assert_eq!(extract_domain("@no.local"), None);
    assert_eq!(extract_domain("no.domain@"), None);
}

#[test]
fn runtime_set_matches_builtin_and_extends() {
    let mut set = DisposableDomains::builtin();
    assert!(set.contains("mailinator.com"));
    assert!(!set.contains("private-list.example"));

    set.extend(["private-list.example", "", "  SECOND.Example  "]);
    assert!(set.contains("private-list.example"));
    assert!(set.contains("second.example"));
}

#[test]
fn runtime_set_contains_email_domain() {
    let set = DisposableDomains::builtin();
    assert!(set.contains_email_domain("evil@mailinator.com"));
    assert!(!set.contains_email_domain("user@gmail.com"));
    assert!(!set.contains_email_domain("malformed"));
}

#[test]
fn runtime_set_counts_each_domain_once() {
    let set = DisposableDomains::from_iter(["a.example", "A.EXAMPLE ", "b.example", ""]);
    assert_eq!(set.len(), 2);
    assert!(!set.is_empty());
    let empty = DisposableDomains::from_iter([""]);
    assert!(empty.is_empty());
}

// ── sanctions ─────────────────────────────────────────────────────────────────

#[test]
fn list_is_sorted_uppercase_and_two_letter() {
    let mut prev = "";
    for code in SANCTIONED_COUNTRIES.iter() {
        assert_eq!(code.len(), 2, "{code} is not 2 chars");
        assert_eq!(*code, code.to_uppercase(), "{code} must be uppercase");
        assert!(*code > prev, "{code} must come after {prev}");
        prev = code;
    }
}

#[test]
fn known_sanctioned_countries_match() {
    for code in ["IR", "KP", "CU", "RU", "SY", "BY", "VE", "MM"] {
        assert!(is_sanctioned(code), "{code} should be sanctioned");
    }
}

#[test]
fn lowercase_and_mixed_case_match() {
    assert!(is_sanctioned("ir"));
    assert!(is_sanctioned("Kp"));
    assert!(is_sanctioned("cu"));
}

#[test]
fn non_sanctioned_countries_do_not_match() {
    for code in ["US", "GB", "DE", "FR", "JP", "CA", "AU", "IN", "BR"] {
        assert!(!is_sanctioned(code), "{code} must NOT be flagged");
    }
}

#[test]
fn malformed_input_is_not_sanctioned() {
    assert!(!is_sanctioned(""));
    assert!(!is_sanctioned("I"));
    assert!(!is_sanctioned("IRN"));
    assert!(!is_sanctioned("  "));
    assert!(!is_sanctioned("123"));
}

#[test]
fn padded_code_is_sanctioned() {
    assert!(is_sanctioned(" ir "));
}

// ── GeoIP ASN classification ──────────────────────────────────────────────────

#[test]
fn classifies_tor() {
    assert_eq!(classify_asn_org("Some Tor relay"), AsnType::Tor);
    assert_ne!(classify_asn_org("Motorola Solutions"), AsnType::Tor);
}

#[test]
fn classifies_private_relays() {
    assert_eq!(classify_asn_org("Apple Private Relay"), AsnType::Relay);
    assert_eq!(classify_asn_org("Cloudflare WARP"), AsnType::Relay);
    assert_eq!(classify_asn_org("iCloud Private Relay"), AsnType::Relay);
}

#[test]
fn classifies_commercial_vpns() {
    for s in ["NordVPN S.A.", "ExpressVPN", "Mullvad VPN AB", "Proton VPN"] {
        assert_eq!(classify_asn_org(s), AsnType::Vpn, "{s}");
    }
}

#[test]
fn classifies_major_cloud() {
    for s in [
        "Amazon.com, Inc.",
        "Microsoft Corporation",
        "Google Cloud",
        "DigitalOcean, LLC",
        "Hetzner Online GmbH",
        "OVH SAS",
    ] {
        assert_eq!(classify_asn_org(s), AsnType::Datacenter, "{s}");
    }
}

#[test]
fn classifies_residential_isps() {
    for s in ["Comcast Cable Communications", "Virgin Media", "Vodafone"] {
        assert_eq!(classify_asn_org(s), AsnType::Residential, "{s}");
    }
}

#[test]
fn unknown_falls_through() {
    assert_eq!(classify_asn_org(""), AsnType::Unknown);
    assert_eq!(classify_asn_org("Completely Made Up Org"), AsnType::Unknown);
}

#[test]
fn classifies_proxy_hosting_and_corporate() {
    assert_eq!(classify_asn_org("Open Proxy Network"), AsnType::Proxy);
    assert_eq!(classify_asn_org("Acme Hosting Ltd"), AsnType::Hosting);
    assert_eq!(classify_asn_org("Verizon Business"), AsnType::Corporate);
    assert_eq!(classify_asn_org("tor exit"), AsnType::Tor);
}

// ── IP reputation ─────────────────────────────────────────────────────────────

#[test]
fn is_anonymised_only_true_when_any_flag_true() {
    let r = IpReputation {
        is_vpn: Some(false),
        is_proxy: None,
        is_relay: None,
        abuse_confidence: Some(10),
    };
    assert!(!r.is_anonymised());

    let r2 = IpReputation {
        is_vpn: None,
        is_proxy: Some(true),
        ..Default::default()
    };
    assert!(r2.is_anonymised());
}

#[test]
fn noop_returns_all_none() {
    let r = NoopIpReputation.classify();
    assert_eq!(r, IpReputation::default());
    assert!(!r.is_anonymised());
}

#[test]
fn static_matches_exact() {
    let vpn = IpValue::V4(0x0A00_0001);
    let store = StaticIpReputation {
        known_vpn: vec![vpn],
        known_proxy: vec![],
        known_relay: vec![],
    };
    let hit = store.classify(vpn);
    assert_eq!(hit.is_vpn, Some(true));
    assert!(hit.is_anonymised());

    let miss = store.classify(IpValue::V4(0x0A00_0002));
    assert_eq!(miss.is_vpn, Some(false));
    assert!(!miss.is_anonymised());
}

// ── metrics labels ────────────────────────────────────────────────────────────

#[test]
fn source_labels_are_stable() {
    assert_eq!(EnrichmentSource::Geo.as_label(), "geo");
    assert_eq!(EnrichmentSource::IpReputation.as_label(), "ip_reputation");
    assert_eq!(EnrichmentSource::Breach.as_label(), "breach");
    assert_eq!(EnrichmentSource::Sanctions.as_label(), "sanctions");
    assert_eq!(
        EnrichmentSource::DisposableEmail.as_label(),
        "disposable_email"
    );
    assert_eq!(EnrichmentSource::ClientSdk.as_label(), "client_sdk");
}

#[test]
fn result_labels_are_stable() {
    assert_eq!(ClassificationResult::Matched.as_label(), "matched");
    assert_eq!(ClassificationResult::NotMatched.as_label(), "not_matched");
    assert_eq!(ClassificationResult::Unknown.as_label(), "unknown");
}

#[test]
fn helpers_are_noop_without_metrics_feature() {
    record_classification(EnrichmentSource::Geo, ClassificationResult::Matched);
    record_error(EnrichmentSource::IpReputation);
}

#[test]
fn bool_result_maps_answers() {
    assert_eq!(bool_result(Some(true)), ClassificationResult::Matched);
    assert_eq!(bool_result(Some(false)), ClassificationResult::NotMatched);
    assert_eq!(bool_result(None), ClassificationResult::Unknown);
}

// ── breach ────────────────────────────────────────────────────────────────────

const HUNTER2_SHA1: &str = "F3BBBD66A63D4BF1747940578EC3D0103530E21D";

#[test]
fn sha1_prefix_suffix_well_known() {
    let (p, s) = sha1_prefix_and_suffix("hunter2");
    assert_eq!(p, "F3BBB");
    assert_eq!(s, "D66A63D4BF1747940578EC3D0103530E21D");
    assert_eq!(format!("{p}{s}"), HUNTER2_SHA1);
}

#[test]
fn hibp_body_parse_matches_counts() {
    let body = "\
AAAA:1\r
D66A63D4BF1747940578EC3D0103530E21D:42\r
BBBB:9\r";
    let (_p, suffix) = sha1_prefix_and_suffix("hunter2");
    assert_eq!(hibp_body_contains(body, &suffix), Some(42));
    assert_eq!(hibp_body_contains(body, "ZZZZ"), None);
}

#[test]
fn hibp_body_parse_skips_malformed_lines() {
    let body = "\
notakeyvalue
FOO:notanumber
F3BBBD66A63D4BF1747940578EC3D0103530E21D:7
";
    let (_p, suffix) = sha1_prefix_and_suffix("hunter2");
    assert_eq!(hibp_body_contains(body, &suffix), None);
}

#[test]
fn hibp_lookup_is_case_insensitive_and_stops_at_first_match() {
    let body = "abcd:notanumber\nABCD:5\n";
    assert_eq!(hibp_body_contains(body, " AbCd "), None);
    assert_eq!(hibp_body_contains("x:1\n  abcd : 12 \n", "ABCD"), None);
    assert_eq!(hibp_body_contains("x:1\n  abcd: 12 \n", "ABCD"), Some(12));
    assert_eq!(hibp_body_contains("", "ABCD"), None);
}

#[test]
fn noop_always_returns_false() {
    assert!(!NoopBreachChecker.is_breached("hunter2"));
}

#[test]
fn static_checker_via_plaintext_matches() {
    let c = StaticBreachChecker::from_plaintext(["password", "hunter2", "123456"]);
    assert!(c.is_breached("hunter2"));
    assert!(c.is_breached("password"));
    assert!(!c.is_breached("ferociously-long-unique-string"));
    assert_eq!(c.len(), 3);
}

#[test]
fn static_checker_via_hex_matches() {
    let c = StaticBreachChecker::from_hashes([HUNTER2_SHA1, "not-valid", ""]);
    assert_eq!(c.len(), 1);
    assert!(c.is_breached("hunter2"));
}

#[test]
fn static_checker_normalises_and_dedups_hashes() {
    let lower = HUNTER2_SHA1.to_lowercase();
    let padded = format!("  {lower}  ");
    let c = StaticBreachChecker::from_hashes([HUNTER2_SHA1, padded.as_str()]);
    assert_eq!(c.len(), 1);
    assert!(!c.is_empty());
    assert!(StaticBreachChecker::from_hashes(["", "xyz"]).is_empty());
}

// ── request fingerprints ──────────────────────────────────────────────────────

fn ip(a: u8, b: u8, c: u8, d: u8) -> IpAddress {
    IpAddress {
        value: IpValue::V4(u32::from_be_bytes([a, b, c, d])),
        text: format!("{a}.{b}.{c}.{d}"),
    }
}

#[test]
fn same_inputs_produce_same_fingerprint() {
    let ip = ip(1, 2, 3, 4);
    let ua = Some("Mozilla/5.0 (Windows NT 10.0; Win64; x64) Chrome/120");
    let a = compute_jwt_fingerprint(Some(&ip), ua);
    let b = compute_jwt_fingerprint(Some(&ip), ua);
    assert_eq!(a, b);
}

#[test]
fn different_ip_produces_different_fingerprint() {
    let ua = Some("Mozilla/5.0 Chrome/120");
    let ip1 = ip(1, 2, 3, 4);
    let ip2 = ip(5, 6, 7, 8);
    assert_ne!(
        compute_jwt_fingerprint(Some(&ip1), ua),
        compute_jwt_fingerprint(Some(&ip2), ua)
    );
}

#[test]
fn different_ua_produces_different_fingerprint() {
    let ip = ip(1, 2, 3, 4);
    assert_ne!(
        compute_jwt_fingerprint(Some(&ip), Some("Chrome/120")),
        compute_jwt_fingerprint(Some(&ip), Some("Firefox/115"))
    );
}

#[test]
fn jwt_key_is_deterministic() {
    let k1 = jwt_fingerprint_key("eyJhbGci.test.token");
    let k2 = jwt_fingerprint_key("eyJhbGci.test.token");
    assert_eq!(k1, k2);
    assert!(k1.starts_with("jwt:fingerprint:"));
}

#[test]
fn fingerprint_is_sha256_hex_of_ip_bar_ua() {
    // sha256("|") — no IP, no user agent.
    assert_eq!(
        compute_jwt_fingerprint(None, None),
        "cbe5cfdf7c2118a9c3d78ef1d684f3afa089201352886449a06a6511cfef74a7"
    );
    // sha256("abc")
    assert_eq!(
        jwt_fingerprint_key("abc"),
        "jwt:fingerprint:ba7816bf8f01cfea414140de5dae2223b00361a396177a9cb410ff61f20015ad"
    );
}

#[test]
fn builtin_set_holds_exactly_the_list() {
    let set = DisposableDomains::builtin();
    assert_eq!(set.len(), BUILTIN_DISPOSABLE_DOMAINS.len());
    let mut sorted = BUILTIN_DISPOSABLE_DOMAINS.to_vec();
    sorted.sort();
    assert_eq!(sorted, BUILTIN_DISPOSABLE_DOMAINS.to_vec());
    for d in ["mailinator.com", "  YOPMAIL.com ", "gmail.com", "", "temp-mail.org", "tempmail"] {
        assert_eq!(set.contains(d), is_disposable(d), "{d}");
    }
}
