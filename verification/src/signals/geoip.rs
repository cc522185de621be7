//! ASN organisation classification for GeoIP lookups.
use vstd::prelude::*;
use crate::text;
use crate::context::AsnType;

verus! {

/// Commercial VPN brand names.
pub const VPN_NAMES: [&'static str; 10] = [
    "nordvpn", "expressvpn", "mullvad", "protonvpn", "surfshark",
    "private internet access", "ipvanish", "cyberghost", "tunnelbear", "vpn unlimited",
];

/// Major cloud and datacenter operators.
pub const DATACENTER_NAMES: [&'static str; 15] = [
    "amazon", "aws", "microsoft", "azure", "google cloud", "googleusercontent",
    "digitalocean", "linode", "ovh", "hetzner", "vultr", "oracle cloud",
    "alibaba cloud", "contabo", "scaleway",
];

/// Enterprise carriers.
pub const CORPORATE_NAMES: [&'static str; 3] = ["verizon business", "at&t services", "deutsche telekom business"];

/// Residential ISPs.
pub const ISP_NAMES: [&'static str; 11] = [
    "comcast", "spectrum", "att internet", "verizon fios", "virgin media", "sky broadband",
    "deutsche telekom", "telefonica", "orange", "bt group", "vodafone",
];

/// `hay` contains one of the table's entries.
pub open spec fn contains_any<const N: usize>(hay: Seq<char>, table: [&'static str; N]) -> bool {
    exists|i: int| 0 <= i < N && text::contains(hay, #[trigger] table@[i]@)
}

/// The coarse ASN bucket of an organisation name (case-insensitive, first
/// matching rule wins).
pub open spec fn spec_classify_asn_org(org: Seq<char>) -> AsnType {
    let l = text::lower(org);
    if text::contains(l, " tor "@) || text::starts_with(l, "tor "@) || text::ends_with(l, " tor"@) {
        AsnType::Tor
    } else if text::contains(l, "private relay"@) || text::contains(l, "icloud"@) || text::contains(l, "cloudflare warp"@) {
        AsnType::Relay
    } else if contains_any(l, VPN_NAMES) {
        AsnType::Vpn
    } else if text::contains(l, " vpn"@) || text::ends_with(l, " vpn"@) || text::starts_with(l, "vpn "@) {
        AsnType::Vpn
    } else if text::contains(l, "proxy"@) || text::contains(l, "anonymizer"@) {
        AsnType::Proxy
    } else if contains_any(l, DATACENTER_NAMES) {
        AsnType::Datacenter
    } else if text::contains(l, "hosting"@) || text::contains(l, "server"@) || text::contains(l, "datacenter"@) {
        AsnType::Hosting
    } else if contains_any(l, CORPORATE_NAMES) {
        AsnType::Corporate
    } else if contains_any(l, ISP_NAMES) {
        AsnType::Residential
    } else {
        AsnType::Unknown
    }
}

fn has_any<const N: usize>(hay: &[char], table: &[&'static str; N]) -> (r: bool)
    ensures
        r == contains_any(hay@, *table),
{
    let mut i: usize = 0;
    while i < N
        invariant
            i <= N,
            forall|j: int| 0 <= j < i ==> !text::contains(hay@, #[trigger] table@[j]@),
        decreases N - i,
    {
        if text::has(hay, table[i]) {
            return true;
        }
        i = i + 1;
    }
    false
}

/// Heuristic classifier for ASN organisation strings. `Unknown` is a valid
/// answer: the engine never hard-bans on it.
pub fn classify_asn_org(org: &str) -> (r: AsnType)
    ensures
        r == spec_classify_asn_org(org@),
{
    let l = text::lower_chars(org);
    if text::has(&l, " tor ") || text::has_prefix(&l, "tor ") || text::has_suffix(&l, " tor") {
        return AsnType::Tor;
    }
    if text::has(&l, "private relay") || text::has(&l, "icloud") || text::has(&l, "cloudflare warp") {
        return AsnType::Relay;
    }
    if has_any(&l, &VPN_NAMES) {
        return AsnType::Vpn;
    }
    if text::has(&l, " vpn") || text::has_suffix(&l, " vpn") || text::has_prefix(&l, "vpn ") {
        return AsnType::Vpn;
    }
    if text::has(&l, "proxy") || text::has(&l, "anonymizer") {
        return AsnType::Proxy;
    }
    if has_any(&l, &DATACENTER_NAMES) {
        return AsnType::Datacenter;
    }
    if text::has(&l, "hosting") || text::has(&l, "server") || text::has(&l, "datacenter") {
        return AsnType::Hosting;
    }
    if has_any(&l, &CORPORATE_NAMES) {
        return AsnType::Corporate;
    }
    if has_any(&l, &ISP_NAMES) {
        return AsnType::Residential;
    }
    AsnType::Unknown
}

} // verus!
