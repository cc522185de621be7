//! Attack cluster vocabulary and edge-based classification.
use vstd::prelude::*;
use crate::org_graph::graph::EdgeType;
use crate::text;

verus! {

/// Attack type inferred from a cluster's edge composition.
#[derive(Debug, Clone, Copy, PartialEq, Eq, Structural)]
pub enum AttackType {
    CredentialStuffing,
    SybilFarm,
    RecoveryAbuse,
    SessionHijackCluster,
    ProxyNetwork,
    UnknownAnomaly,
}

impl AttackType {
    pub open spec fn spec_label(self) -> Seq<char> {
        match self {
            AttackType::CredentialStuffing => "credential_stuffing"@,
            AttackType::SybilFarm => "sybil_farm"@,
            AttackType::RecoveryAbuse => "recovery_abuse"@,
            AttackType::SessionHijackCluster => "session_hijack_cluster"@,
            AttackType::ProxyNetwork => "proxy_network"@,
            AttackType::UnknownAnomaly => "unknown_anomaly"@,
        }
    }

    /// Label used in audit output.
    pub fn label(&self) -> (r: &'static str)
        ensures
            r@ == self.spec_label(),
    {
        match self {
            AttackType::CredentialStuffing => "credential_stuffing",
            AttackType::SybilFarm => "sybil_farm",
            AttackType::RecoveryAbuse => "recovery_abuse",
            AttackType::SessionHijackCluster => "session_hijack_cluster",
            AttackType::ProxyNetwork => "proxy_network",
            AttackType::UnknownAnomaly => "unknown_anomaly",
        }
    }
}

/// A per-cluster contribution that influenced the adjusted score.
#[derive(Debug)]
pub struct ClusterFactor {
    pub cluster_id: String,
    pub attack_type: AttackType,
    pub contribution: u8,
    pub description: String,
}

/// The mathematical content of a [`ClusterFactor`].
pub struct ClusterFactorView {
    pub cluster_id: Seq<char>,
    pub attack_type: AttackType,
    pub contribution: u8,
    pub description: Seq<char>,
}

impl View for ClusterFactor {
    type V = ClusterFactorView;

    open spec fn view(&self) -> ClusterFactorView {
        ClusterFactorView {
            cluster_id: self.cluster_id@,
            attack_type: self.attack_type,
            contribution: self.contribution,
            description: self.description@,
        }
    }
}

impl Clone for ClusterFactor {
    fn clone(&self) -> (r: Self)
        ensures
            r@ == self@,
    {
        ClusterFactor {
            cluster_id: self.cluster_id.clone(),
            attack_type: self.attack_type,
            contribution: self.contribution,
            description: self.description.clone(),
        }
    }
}

/// Stateless, deterministic cluster detection and classification.
#[derive(Debug, Clone, Copy)]
pub struct ClusterDetector;

/// The number of edges of a type.
pub open spec fn count_edges(edges: Seq<EdgeType>, t: EdgeType) -> nat
    decreases edges.len(),
{
    if edges.len() == 0 {
        0
    } else {
        count_edges(edges.drop_last(), t) + if edges.last() == t { 1nat } else { 0nat }
    }
}

/// The attack type of a cluster, from its edge-type counts; higher-priority
/// patterns (recovery abuse, session hijack) first.
pub open spec fn spec_classify(edges: Seq<EdgeType>) -> AttackType {
    let ip = count_edges(edges, EdgeType::SharedIp);
    let dev = count_edges(edges, EdgeType::SharedDevice);
    let seq_ = count_edges(edges, EdgeType::LoginSequence);
    let rec = count_edges(edges, EdgeType::RecoveryChain);
    let act = count_edges(edges, EdgeType::ActionLink);
    if edges.len() == 0 {
        AttackType::UnknownAnomaly
    } else if rec >= 2 {
        AttackType::RecoveryAbuse
    } else if dev >= 2 {
        AttackType::SessionHijackCluster
    } else if ip >= 4 && seq_ >= 2 {
        AttackType::CredentialStuffing
    } else if ip >= 6 {
        AttackType::ProxyNetwork
    } else if seq_ >= 3 && act >= 1 {
        AttackType::SybilFarm
    } else if ip >= 2 || seq_ >= 2 {
        AttackType::CredentialStuffing
    } else {
        AttackType::UnknownAnomaly
    }
}

proof fn lemma_count_edges_le(edges: Seq<EdgeType>, t: EdgeType)
    ensures
        count_edges(edges, t) <= edges.len(),
    decreases edges.len(),
{
    if edges.len() > 0 {
        lemma_count_edges_le(edges.drop_last(), t);
    }
}

/// What the classification of a cluster says about its edges:
/// - it is `UnknownAnomaly` exactly when the cluster has no edge, or fewer
///   than two edges of each of the shared-IP, shared-device, login-sequence
///   and recovery kinds (action links alone never classify a cluster);
/// - two recovery edges always mean `RecoveryAbuse`, and `RecoveryAbuse` needs them;
/// - `SessionHijackCluster` is given exactly when there are two shared-device
///   edges and fewer than two recovery edges;
/// - `ProxyNetwork` needs six shared-IP edges, `SybilFarm` three login
///   sequences and an action link, and `CredentialStuffing` two shared-IP
///   edges or two login sequences.
pub proof fn lemma_classify_by_counts(edges: Seq<EdgeType>)
    ensures
        ({
            let ip = count_edges(edges, EdgeType::SharedIp);
            let dev = count_edges(edges, EdgeType::SharedDevice);
            let sq = count_edges(edges, EdgeType::LoginSequence);
            let rec = count_edges(edges, EdgeType::RecoveryChain);
            let act = count_edges(edges, EdgeType::ActionLink);
            let t = spec_classify(edges);
            &&& (t == AttackType::UnknownAnomaly <==> (edges.len() == 0 || (ip < 2 && dev < 2 && sq < 2 && rec < 2)))
            &&& (rec >= 2 ==> t == AttackType::RecoveryAbuse)
            &&& (t == AttackType::RecoveryAbuse ==> rec >= 2)
            &&& (t == AttackType::SessionHijackCluster <==> (rec < 2 && dev >= 2))
            &&& (t == AttackType::ProxyNetwork ==> ip >= 6)
            &&& (t == AttackType::SybilFarm ==> sq >= 3 && act >= 1)
            &&& (t == AttackType::CredentialStuffing ==> ip >= 2 || sq >= 2)
        }),
{
    if edges.len() > 0 {
        lemma_count_edges_le(edges, EdgeType::SharedIp);
    } else {
        assert(count_edges(edges, EdgeType::SharedIp) == 0);
        assert(count_edges(edges, EdgeType::SharedDevice) == 0);
        assert(count_edges(edges, EdgeType::LoginSequence) == 0);
        assert(count_edges(edges, EdgeType::RecoveryChain) == 0);
    }
}

impl ClusterDetector {
    /// Classify the attack type from the edge types within a cluster.
    pub fn classify_cluster(edges: &[EdgeType]) -> (r: AttackType)
        ensures
            r == spec_classify(edges@),
    {
        if edges.len() == 0 {
            return AttackType::UnknownAnomaly;
        }
        let mut shared_ip: usize = 0;
        let mut shared_device: usize = 0;
        let mut login_seq: usize = 0;
        let mut recovery: usize = 0;
        let mut action: usize = 0;
        let mut i: usize = 0;
        while i < edges.len()
            invariant
                i <= edges@.len(),
                shared_ip == count_edges(edges@.take(i as int), EdgeType::SharedIp),
                shared_device == count_edges(edges@.take(i as int), EdgeType::SharedDevice),
                login_seq == count_edges(edges@.take(i as int), EdgeType::LoginSequence),
                recovery == count_edges(edges@.take(i as int), EdgeType::RecoveryChain),
                action == count_edges(edges@.take(i as int), EdgeType::ActionLink),
            decreases edges.len() - i,
        {
            proof {
                let t = edges@.take(i as int);
                assert(edges@.take(i as int + 1).drop_last() =~= t);
                lemma_count_edges_le(t, EdgeType::SharedIp);
                lemma_count_edges_le(t, EdgeType::SharedDevice);
                lemma_count_edges_le(t, EdgeType::LoginSequence);
                lemma_count_edges_le(t, EdgeType::RecoveryChain);
                lemma_count_edges_le(t, EdgeType::ActionLink);
            }
            match edges[i] {
                EdgeType::SharedIp => shared_ip = shared_ip + 1,
                EdgeType::SharedDevice => shared_device = shared_device + 1,
                EdgeType::LoginSequence => login_seq = login_seq + 1,
                EdgeType::RecoveryChain => recovery = recovery + 1,
                EdgeType::ActionLink => action = action + 1,
            }
            i = i + 1;
        }
        assert(edges@.take(edges.len() as int) =~= edges@);
        if recovery >= 2 {
            AttackType::RecoveryAbuse
        } else if shared_device >= 2 {
            AttackType::SessionHijackCluster
        } else if shared_ip >= 4 && login_seq >= 2 {
            AttackType::CredentialStuffing
        } else if shared_ip >= 6 {
            AttackType::ProxyNetwork
        } else if login_seq >= 3 && action >= 1 {
            AttackType::SybilFarm
        } else if shared_ip >= 2 || login_seq >= 2 {
            AttackType::CredentialStuffing
        } else {
            AttackType::UnknownAnomaly
        }
    }
}

/// Fewest members a detected cluster must have.
pub const MIN_CLUSTER_SIZE: usize = 2;

/// The id of the cluster rooted at `root` in a tenant: `{tenant}:cluster:{root}`.
pub open spec fn spec_cluster_id(tenant_id: Seq<char>, root: Seq<char>) -> Seq<char> {
    tenant_id + ":cluster:"@ + root
}

/// The float-free part of detecting one cluster: it is kept when its
/// confidence reached the minimum (`confident`) and it has at least
/// `MIN_CLUSTER_SIZE` members; a kept cluster gets its id and its members in
/// ascending order.
pub fn cluster_outline(tenant_id: &str, root: &str, members: &Vec<String>, confident: bool) -> (r: Option<(String, Vec<String>)>)
    ensures
        match r {
            Some((id, nodes)) => {
                &&& confident && members@.len() >= MIN_CLUSTER_SIZE
                &&& id@ == spec_cluster_id(tenant_id@, root@)
                &&& text::sorted_strings(text::strings_view(nodes@))
                &&& text::strings_view(nodes@).to_multiset() == text::strings_view(members@).to_multiset()
            },
            None => !(confident && members@.len() >= MIN_CLUSTER_SIZE),
        },
{
    if !confident || members.len() < MIN_CLUSTER_SIZE {
        return None;
    }
    let id = text::concat3(tenant_id, ":cluster:", root);
    Some((id, text::sort_strings(members)))
}

} // verus!
