//! IP intelligence signals: VPN / proxy / privacy-relay flags and abuse score.
use vstd::prelude::*;
use crate::context::IpValue;

verus! {

/// Classification bundle for one IP. `None` means the provider did not say.
#[derive(Debug, Clone, Copy, PartialEq, Eq, Structural)]
pub struct IpReputation {
    pub is_vpn: Option<bool>,
    pub is_proxy: Option<bool>,
    pub is_relay: Option<bool>,
    /// 0–100 abuse confidence, higher = more reported abuse.
    pub abuse_confidence: Option<u8>,
}

impl IpReputation {
    pub open spec fn spec_is_anonymised(self) -> bool {
        self.is_vpn == Some(true) || self.is_proxy == Some(true) || self.is_relay == Some(true)
    }

    /// True if any anonymisation flag is `Some(true)`; a missing flag is not
    /// read as "no".
    pub fn is_anonymised(&self) -> (r: bool)
        ensures
            r == self.spec_is_anonymised(),
    {
        self.is_vpn == Some(true) || self.is_proxy == Some(true) || self.is_relay == Some(true)
    }
}

impl Default for IpReputation {
    fn default() -> (r: Self)
        ensures
            r.is_vpn is None && r.is_proxy is None && r.is_relay is None && r.abuse_confidence is None,
    {
        IpReputation { is_vpn: None, is_proxy: None, is_relay: None, abuse_confidence: None }
    }
}

/// A provider that knows nothing: every field `None`.
#[derive(Debug, Clone, Copy)]
pub struct NoopIpReputation;

impl NoopIpReputation {
    /// The empty classification.
    pub fn classify(&self) -> (r: IpReputation)
        ensures
            r.is_vpn is None && r.is_proxy is None && r.is_relay is None && r.abuse_confidence is None,
    {
        IpReputation::default()
    }
}

/// Static classification backed by three exact-match lists.
#[derive(Debug, Clone)]
pub struct StaticIpReputation {
    pub known_vpn: Vec<IpValue>,
    pub known_proxy: Vec<IpValue>,
    pub known_relay: Vec<IpValue>,
}

fn listed(list: &Vec<IpValue>, ip: IpValue) -> (r: bool)
    ensures
        r == list@.contains(ip),
{
    let mut i: usize = 0;
    while i < list.len()
        invariant
            i <= list@.len(),
            forall|j: int| 0 <= j < i ==> list@[j] != ip,
        decreases list.len() - i,
    {
        if list[i] == ip {
            assert(list@[i as int] == ip);
            return true;
        }
        i = i + 1;
    }
    false
}

impl StaticIpReputation {
    /// Each flag is whether the IP is on the corresponding list; no abuse score.
    pub fn classify(&self, ip: IpValue) -> (r: IpReputation)
        ensures
            r.is_vpn == Some(self.known_vpn@.contains(ip)),
            r.is_proxy == Some(self.known_proxy@.contains(ip)),
            r.is_relay == Some(self.known_relay@.contains(ip)),
            r.abuse_confidence is None,
    {
        IpReputation {
            is_vpn: Some(listed(&self.known_vpn, ip)),
            is_proxy: Some(listed(&self.known_proxy, ip)),
            is_relay: Some(listed(&self.known_relay, ip)),
            abuse_confidence: None,
        }
    }
}

} // verus!
