use risk_engine::org_graph::cluster::{cluster_outline, AttackType, ClusterDetector, ClusterFactor};
use risk_engine::org_graph::graph::{canonical_edge_key, edge_endpoints, endpoints_key, EdgeType, NodeId, NodeType};
use risk_engine::org_graph::scoring::{
    build_org_factor, compute_org_bias, compute_org_cluster_bias, ORG_LEVEL_CLUSTER_ID,
};
use risk_engine::org_graph::tenant::{
    apply_shift_inertia, compute_target_shift, severity_distribution, OrgRiskSnapshot,
    PressureLevel,
};
use risk_engine::org_graph::union_find::{RedisUnionFindRepr, UnionFind, UNION_WEIGHT_THRESHOLD_BITS};
use risk_engine::org_graph::worker::WorkerConfig;
use risk_engine::org_graph::recompute::{distinct_users, pruned_keys, strongest_memberships};

fn w(x: f32) -> u32 {
    x.to_bits()
}

// ── org / cluster bias ────────────────────────────────────────────────────────

#[test]
fn low_org_risk_produces_no_bias() {
    assert_eq!(compute_org_bias(0), 0);
    assert_eq!(compute_org_bias(30), 0);
}

#[test]
fn max_org_risk_capped_at_10() {
    assert!(compute_org_bias(100) <= 10);
}

#[test]
fn org_bias_follows_its_scale() {
    assert_eq!(compute_org_bias(31), 1);
    assert_eq!(compute_org_bias(35), 1);
    assert_eq!(compute_org_bias(36), 1);
    assert_eq!(compute_org_bias(42), 2);
    assert_eq!(compute_org_bias(45), 2);
    assert_eq!(compute_org_bias(60), 5);
    assert_eq!(compute_org_bias(61), 5);
    assert_eq!(compute_org_bias(67), 6);
    assert_eq!(compute_org_bias(79), 7);
    assert_eq!(compute_org_bias(80), 8);
    assert_eq!(compute_org_bias(81), 8);
    assert_eq!(compute_org_bias(100), 10);
    assert_eq!(compute_org_bias(255), 10);
    let mut prev = 0;
    for s in 0..=255u8 {
        let b = compute_org_bias(s);
        assert!(b >= prev && b <= 10);
        prev = b;
    }
}

fn membership_factor(bias: u8) -> ClusterFactor {
    ClusterFactor {
        cluster_id: "t:cluster:user:a".into(),
        attack_type: AttackType::RecoveryAbuse,
        contribution: bias,
        description: "member".into(),
    }
}

#[test]
fn total_bias_capped_at_25() {
    let m = membership_factor(15);
    let result = compute_org_cluster_bias(Some(100), Some(&m), Some(20), 10);
    assert!(result.total_bias <= 25, "total bias exceeded 25: {}", result.total_bias);
    assert_eq!(result.total_bias, 25);
    assert_eq!(result.org_bias, 10);
    assert_eq!(result.cluster_bias, 15);
    assert_eq!(result.threshold_shift, 20);
    assert_eq!(result.factors.len(), 2);
    assert_eq!(result.factors[0].cluster_id, ORG_LEVEL_CLUSTER_ID);
    assert_eq!(
        result.factors[0].description,
        "Tenant under elevated risk (org_score=100, active_clusters=10)"
    );
    assert_eq!(result.factors[1].cluster_id, "t:cluster:user:a");
}

#[test]
fn fail_open_on_missing_org_data() {
    let result = compute_org_cluster_bias(None, None, None, 0);
    assert_eq!(result.org_bias, 0);
    assert_eq!(result.cluster_bias, 0);
    assert_eq!(result.threshold_shift, 0);
    assert_eq!(result.total_bias, 0);
    assert!(result.factors.is_empty());
}

#[test]
fn zero_biases_report_no_factor() {
    let m = membership_factor(0);
    let result = compute_org_cluster_bias(Some(20), Some(&m), Some(-5), 3);
    assert_eq!(result.total_bias, 0);
    assert_eq!(result.threshold_shift, -5);
    assert!(result.factors.is_empty());
}

#[test]
fn threshold_shift_is_kept_within_its_bounds() {
    assert_eq!(compute_org_cluster_bias(None, None, Some(100), 0).threshold_shift, 20);
    assert_eq!(compute_org_cluster_bias(None, None, Some(-100), 0).threshold_shift, -15);
    assert_eq!(compute_org_cluster_bias(None, None, Some(-15), 0).threshold_shift, -15);
    assert_eq!(compute_org_cluster_bias(None, None, Some(7), 0).threshold_shift, 7);
}

#[test]
fn org_factor_describes_tenant_risk() {
    let f = build_org_factor(72, 6, 3);
    assert_eq!(f.cluster_id, "org_level");
    assert_eq!(f.attack_type, AttackType::UnknownAnomaly);
    assert_eq!(f.contribution, 6);
    assert_eq!(f.description, "Tenant under elevated risk (org_score=72, active_clusters=3)");
}

// ── tenant posture ────────────────────────────────────────────────────────────

#[test]
fn snapshot_staleness_detection() {
    let now = 10_000i64;
    let mut snap = OrgRiskSnapshot::unavailable("t1");
    snap.computed_at = now - 301;
    assert!(snap.is_stale(now));

    snap.computed_at = now - 60;
    assert!(!snap.is_stale(now));
}

#[test]
fn unavailable_snapshot_is_neutral() {
    let snap = OrgRiskSnapshot::unavailable("t1");
    assert_eq!(snap.tenant_id, "t1");
    assert_eq!(snap.org_risk_score, 0);
    assert_eq!(snap.threshold_shift, 0);
    assert_eq!(snap.active_cluster_count, 0);
    assert_eq!(snap.cluster_severity_distribution, [0, 0, 0, 0]);
    assert!(snap.is_stale(301));
    assert!(!snap.is_stale(300));
    assert!(!OrgRiskSnapshot::unavailable("t").is_stale(i64::MIN));
}

#[test]
fn snapshot_buckets_cluster_severity() {
    assert_eq!(severity_distribution(&[0, 25, 26, 50, 51, 75, 76, 100]), [2, 2, 2, 2]);
    let snap = OrgRiskSnapshot::from_clusters("t1", &[90, 10], 42, 6, 500);
    assert_eq!(snap.active_cluster_count, 2);
    assert_eq!(snap.cluster_severity_distribution, [1, 0, 0, 1]);
    assert_eq!(snap.org_risk_score, 42);
    assert_eq!(snap.threshold_shift, 6);
    assert_eq!(snap.computed_at, 500);
}

#[test]
fn shift_inertia_prevents_sudden_spikes() {
    let target = compute_target_shift(PressureLevel::Severe, true);
    assert_eq!(target, 19);
    assert_eq!(apply_shift_inertia(target, 0), 3);
    assert_eq!(apply_shift_inertia(-15, 0), -3);
    assert_eq!(apply_shift_inertia(2, 0), 2);
    assert_eq!(apply_shift_inertia(20, 19), 20);
}

#[test]
fn shift_bounded_to_max() {
    for level in [
        PressureLevel::Severe,
        PressureLevel::Moderate,
        PressureLevel::Minor,
        PressureLevel::StableQuiet,
        PressureLevel::Neutral,
    ] {
        for dense in [false, true] {
            let target = compute_target_shift(level, dense);
            assert!(target <= 20, "threshold shift must not exceed +20");
            assert!(target >= -15, "threshold shift must not go below -15");
        }
    }
    assert_eq!(compute_target_shift(PressureLevel::StableQuiet, false), -5);
    assert_eq!(compute_target_shift(PressureLevel::Minor, false), 6);
    assert_eq!(compute_target_shift(PressureLevel::Moderate, true), 14);
    assert_eq!(compute_target_shift(PressureLevel::Neutral, false), 0);
}

#[test]
fn worker_defaults_and_prune_cadence() {
    let cfg = WorkerConfig::default();
    assert_eq!(cfg.recompute_interval_secs, 300);
    assert_eq!(cfg.prune_interval_secs, 3600);
    assert!(cfg.prune_due(None, 0));
    assert!(!cfg.prune_due(Some(1000), 4599));
    assert!(cfg.prune_due(Some(1000), 4600));
}

// ── graph keys ────────────────────────────────────────────────────────────────

#[test]
fn node_id_round_trip() {
    let n = NodeId::user(0);
    let key = n.key();
    assert_eq!(key, "user:00000000-0000-0000-0000-000000000000");
    let parsed = NodeId::from_key(&key).unwrap();
    assert_eq!(parsed.kind, n.kind);
    assert_eq!(parsed.value, n.value);
}

#[test]
fn node_keys_parse_by_prefix() {
    let d = NodeId::from_key("dev:abc:def").unwrap();
    assert_eq!(d.kind, NodeType::Device);
    assert_eq!(d.value, "abc:def");
    assert_eq!(NodeId::from_key("ip:1.2.3.4").unwrap().kind, NodeType::IpAddress);
    assert_eq!(NodeId::from_key("cred:x").unwrap().kind, NodeType::Credential);
    assert!(NodeId::from_key("host:1").is_none());
    assert!(NodeId::from_key("nocolon").is_none());
    assert_eq!(NodeId::device("fp".to_string()).key(), "dev:fp");
    assert_eq!(
        NodeId::credential(0x0123_4567_89ab_cdef_0123_4567_89ab_cdef).key(),
        "cred:01234567-89ab-cdef-0123-456789abcdef"
    );
}

#[test]
fn edge_canonical_ordering() {
    assert_eq!(canonical_edge_key("user:bbb", "user:aaa"), "user:aaa|user:bbb");
    assert_eq!(canonical_edge_key("user:aaa", "user:bbb"), "user:aaa|user:bbb");
    assert_eq!(canonical_edge_key("x", "x"), "x|x");
}

// ── cluster classification ────────────────────────────────────────────────────

#[test]
fn recovery_abuse_classified_correctly() {
    let at = ClusterDetector::classify_cluster(&[EdgeType::RecoveryChain, EdgeType::RecoveryChain]);
    assert_eq!(at, AttackType::RecoveryAbuse);
}

#[test]
fn classification_follows_priority_order() {
    assert_eq!(ClusterDetector::classify_cluster(&[]), AttackType::UnknownAnomaly);
    assert_eq!(ClusterDetector::classify_cluster(&[EdgeType::SharedDevice, EdgeType::SharedDevice]), AttackType::SessionHijackCluster);
    assert_eq!(
        ClusterDetector::classify_cluster(&[EdgeType::SharedIp, EdgeType::SharedIp, EdgeType::SharedIp, EdgeType::SharedIp, EdgeType::LoginSequence, EdgeType::LoginSequence]),
        AttackType::CredentialStuffing
    );
    assert_eq!(ClusterDetector::classify_cluster(&[EdgeType::SharedIp; 6]), AttackType::ProxyNetwork);
    assert_eq!(
        ClusterDetector::classify_cluster(&[EdgeType::LoginSequence, EdgeType::LoginSequence, EdgeType::LoginSequence, EdgeType::ActionLink]),
        AttackType::SybilFarm
    );
    assert_eq!(ClusterDetector::classify_cluster(&[EdgeType::SharedIp, EdgeType::SharedIp]), AttackType::CredentialStuffing);
    assert_eq!(ClusterDetector::classify_cluster(&[EdgeType::SharedIp, EdgeType::ActionLink]), AttackType::UnknownAnomaly);
    assert_eq!(AttackType::RecoveryAbuse.label(), "recovery_abuse");
    assert_eq!(AttackType::SessionHijackCluster.label(), "session_hijack_cluster");
}

// ── union-find ────────────────────────────────────────────────────────────────

#[test]
fn basic_union_and_find() {
    let mut uf = UnionFind::new();
    assert!(!uf.same_cluster("a", "b"));
    uf.union("a", "b", w(0.8));
    assert!(uf.same_cluster("a", "b"));
}

#[test]
fn low_weight_edge_does_not_merge() {
    let mut uf = UnionFind::new();
    assert!(!uf.union("a", "b", w(0.1)));
    assert!(!uf.same_cluster("a", "b"));
    assert_eq!(uf.node_count(), 2);
}

#[test]
fn transitive_clustering() {
    let mut uf = UnionFind::new();
    uf.union("a", "b", w(0.9));
    uf.union("b", "c", w(0.8));
    assert!(uf.same_cluster("a", "c"));
}

#[test]
fn all_clusters_excludes_singletons() {
    let mut uf = UnionFind::new();
    uf.add_node("loner");
    uf.union("a", "b", w(0.9));
    let clusters = uf.all_clusters();
    assert!(!clusters.iter().any(|(_, v)| v.contains(&"loner".to_string())));
    assert!(clusters.iter().any(|(_, v)| v.len() == 2));
}

#[test]
fn path_compression_keeps_correctness() {
    let mut uf = UnionFind::new();
    uf.union("a", "b", w(0.9));
    uf.union("b", "c", w(0.8));
    uf.union("c", "d", w(0.7));
    assert!(uf.same_cluster("a", "d"));
    let root_a = uf.find("a");
    let root_d = uf.find("d");
    assert_eq!(root_a, root_d);
}

#[test]
fn union_reports_merges_and_weights() {
    let mut uf = UnionFind::new();
    assert!(uf.union("user:a", "ip:1", w(0.5)));
    assert!(!uf.union("ip:1", "user:a", w(0.9)));
    assert!(uf.union("user:b", "ip:1", w(0.25)));
    assert_eq!(uf.find("user:b"), "user:a");
    assert_eq!(uf.inter_cluster_weight("user:a", "ip:1"), 0);
    let mut uf2 = UnionFind::new();
    uf2.union("x", "y", UNION_WEIGHT_THRESHOLD_BITS - 1);
    assert_eq!(uf2.node_count(), 2);
    assert!(!uf2.same_cluster("x", "y"));
    assert_eq!(uf2.inter_cluster_weight("x", "y"), 0);
    let clusters = uf.all_clusters();
    assert_eq!(clusters.len(), 1);
    assert_eq!(clusters[0].0, "user:a");
    assert_eq!(clusters[0].1, vec!["user:a".to_string(), "ip:1".to_string(), "user:b".to_string()]);
}

#[test]
fn cluster_members_are_sorted_and_complete() {
    let mut uf = UnionFind::new();
    uf.union("user:b", "ip:1", w(0.9));
    uf.union("ip:1", "device:z", w(0.9));
    uf.add_node("loner");
    assert_eq!(
        uf.cluster_members("ip:1"),
        vec!["device:z".to_string(), "ip:1".to_string(), "user:b".to_string()]
    );
    assert!(uf.cluster_members("loner").is_empty());
    assert!(uf.cluster_members("fresh").is_empty());
    assert_eq!(uf.node_count(), 5);
}

#[test]
fn remove_cluster_drops_members_and_weights() {
    let mut uf = UnionFind::new();
    uf.union("a", "b", w(0.9));
    uf.union("c", "d", w(0.8));
    let root = uf.find("a");
    uf.remove_cluster(&root);
    assert_eq!(uf.node_count(), 2);
    assert!(uf.same_cluster("c", "d"));
    assert_eq!(uf.inter_cluster_weight("a", "b"), 0);
    assert_eq!(uf.all_clusters().len(), 1);
    // the removed nodes come back as fresh singletons
    assert!(!uf.same_cluster("a", "b"));
}

#[test]
fn cluster_members_returns_empty_for_singleton() {
    let mut uf = UnionFind::new();
    uf.add_node("solo");
    assert!(uf.cluster_members("solo").is_empty());
}

#[test]
fn serialization_round_trip() {
    let mut uf = UnionFind::new();
    uf.union("user:aaa", "ip:1.2.3.4", w(0.9));
    uf.union("user:bbb", "ip:1.2.3.4", w(0.7));

    let repr = uf.to_redis_repr();
    let mut uf2 = UnionFind::from_redis_repr(repr);

    assert!(uf2.same_cluster("user:aaa", "user:bbb"));
}

fn pair(a: &str, b: &str) -> (String, String) {
    (a.to_string(), b.to_string())
}

#[test]
fn repr_keeps_roots_weights_and_rejects_broken_forests() {
    let mut uf = UnionFind::new();
    uf.union("a", "b", w(0.9));
    uf.union("c", "d", w(0.5));
    uf.add_node("e");
    let root_ab = uf.find("b");
    let repr = uf.to_redis_repr();
    assert_eq!(repr.parent.len(), 5);
    assert_eq!(repr.rank.len(), 5);
    assert!(UnionFind::repr_is_forest(&repr));
    let mut back = UnionFind::from_redis_repr(repr);
    assert_eq!(back.find("a"), root_ab);
    assert!(back.same_cluster("c", "d"));
    assert!(!back.same_cluster("a", "e"));
    assert_eq!(back.node_count(), 5);

    // a deep chain of parent links is accepted
    let chain = RedisUnionFindRepr {
        parent: vec![pair("x", "y"), pair("y", "z"), pair("z", "z")],
        rank: vec![],
        edge_weights: vec![("q|z".to_string(), w(0.3))],
    };
    assert!(UnionFind::repr_is_forest(&chain));
    let mut flat = UnionFind::from_redis_repr(chain);
    assert_eq!(flat.find("x"), "z");
    assert_eq!(flat.inter_cluster_weight("x", "q"), w(0.3));
    assert_eq!(flat.inter_cluster_weight("y", "x"), 0);

    let cycle = RedisUnionFindRepr {
        parent: vec![pair("x", "y"), pair("y", "x")],
        rank: vec![],
        edge_weights: vec![],
    };
    assert!(!UnionFind::repr_is_forest(&cycle));
    let dangling = RedisUnionFindRepr {
        parent: vec![pair("x", "nowhere")],
        rank: vec![],
        edge_weights: vec![],
    };
    assert!(!UnionFind::repr_is_forest(&dangling));
    let twice = RedisUnionFindRepr {
        parent: vec![pair("x", "x"), pair("x", "x")],
        rank: vec![],
        edge_weights: vec![],
    };
    assert!(!UnionFind::repr_is_forest(&twice));
}

fn rank_in(repr: &RedisUnionFindRepr, node: &str) -> u32 {
    repr.rank.iter().find(|(k, _)| k == node).map(|(_, r)| *r).unwrap()
}

#[test]
fn repr_carries_ranks_through_a_round_trip() {
    let mut uf = UnionFind::new();
    uf.union("a", "b", w(0.9));
    let root = uf.find("a");
    let child = if root == "a" { "b" } else { "a" };
    let repr = uf.to_redis_repr();
    assert_eq!(rank_in(&repr, &root), 1);
    assert_eq!(rank_in(&repr, child), 0);

    let back = UnionFind::from_redis_repr(repr);
    let again = back.to_redis_repr();
    assert_eq!(rank_in(&again, &root), 1);
    assert_eq!(rank_in(&again, child), 0);

    // a node without a rank entry gets rank 0; a rank entry listed twice is refused
    let unranked = RedisUnionFindRepr {
        parent: vec![pair("x", "x")],
        rank: vec![("other".to_string(), 4)],
        edge_weights: vec![],
    };
    assert!(UnionFind::repr_is_forest(&unranked));
    let back = UnionFind::from_redis_repr(unranked);
    assert_eq!(rank_in(&back.to_redis_repr(), "x"), 0);
    let doubled = RedisUnionFindRepr {
        parent: vec![pair("x", "x")],
        rank: vec![("x".to_string(), 1), ("x".to_string(), 2)],
        edge_weights: vec![],
    };
    assert!(!UnionFind::repr_is_forest(&doubled));
}

fn names(v: &[&str]) -> Vec<String> {
    v.iter().map(|s| s.to_string()).collect()
}

#[test]
fn nodes_are_attributed_to_the_strongest_cluster() {
    let clusters = vec![
        names(&["user:a", "ip:1"]),
        names(&["user:a", "user:b"]),
        names(&["user:b", "ip:1"]),
    ];
    let risks = vec![40u8, 70, 70];
    let r = strongest_memberships(&clusters, &risks);
    assert_eq!(
        r,
        vec![("user:a".to_string(), 1), ("ip:1".to_string(), 2), ("user:b".to_string(), 1)]
    );
    assert!(strongest_memberships(&vec![], &vec![]).is_empty());
}

#[test]
fn distinct_users_counts_each_user_once() {
    let clusters = vec![
        names(&["user:a", "ip:1", "user:b"]),
        names(&["user:b", "dev:x", "user:c", "user:a"]),
    ];
    assert_eq!(distinct_users(&clusters), names(&["user:a", "user:b", "user:c"]));
    assert!(distinct_users(&vec![names(&["ip:1", "users:z"])]).is_empty());
}

#[test]
fn negative_weights_never_merge() {
    let mut uf = UnionFind::new();
    assert!(!uf.union("a", "b", w(-0.0)));
    assert!(!uf.union("a", "b", w(-0.9)));
    assert!(!uf.union("a", "b", w(f32::NEG_INFINITY)));
    assert!(!uf.same_cluster("a", "b"));
    assert_eq!(uf.node_count(), 2);
    assert!(uf.union("a", "b", w(0.25)));
    assert!(uf.same_cluster("a", "b"));
}

#[test]
fn reinforcing_keeps_the_heavier_weight_as_floats_compare() {
    let mut uf = UnionFind::new();
    assert!(uf.union("a", "b", w(0.5)));
    let root = uf.find("a");
    // within one cluster the self-edge of the root records the heaviest
    // weight; a NaN weight is not heavier than anything
    let key = format!("{root}|{root}");
    assert!(!uf.union("a", "b", w(0.3)));
    assert!(!uf.union("a", "b", w(f32::NAN)));
    let repr = uf.to_redis_repr();
    let self_edge = repr.edge_weights.iter().find(|(k, _)| *k == key).map(|(_, v)| *v);
    assert_eq!(self_edge, Some(w(0.3)));
    assert!(!uf.union("a", "b", w(0.7)));
    let repr = uf.to_redis_repr();
    let self_edge = repr.edge_weights.iter().find(|(k, _)| *k == key).map(|(_, v)| *v);
    assert_eq!(self_edge, Some(w(0.7)));
    assert!(!uf.union("b", "a", w(0.6)));
    let repr = uf.to_redis_repr();
    let self_edge = repr.edge_weights.iter().find(|(k, _)| *k == key).map(|(_, v)| *v);
    assert_eq!(self_edge, Some(w(0.7)));
}

#[test]
fn new_edges_store_their_endpoints_in_order() {
    let (from, to) = edge_endpoints("user:bbb", "user:aaa");
    assert_eq!((from.as_str(), to.as_str()), ("user:aaa", "user:bbb"));
    assert_eq!(edge_endpoints("user:aaa", "user:bbb"), (from.clone(), to.clone()));
    assert_eq!(endpoints_key(&from, &to), canonical_edge_key("user:bbb", "user:aaa"));
    assert_eq!(endpoints_key("x", "y"), "x|y");
}

#[test]
fn cluster_outline_keeps_confident_clusters_with_sorted_members() {
    let members = names(&["user:b", "ip:1", "user:a"]);
    let (id, nodes) = cluster_outline("t1", "ip:1", &members, true).unwrap();
    assert_eq!(id, "t1:cluster:ip:1");
    assert_eq!(nodes, names(&["ip:1", "user:a", "user:b"]));
    assert_eq!(cluster_outline("t1", "ip:1", &members, false), None);
    assert_eq!(cluster_outline("t1", "user:a", &names(&["user:a"]), true), None);
}

#[test]
fn pruning_drops_the_keys_of_dead_edges_in_order() {
    let keys = names(&["a|b", "b|c", "c|d", "d|e"]);
    assert_eq!(pruned_keys(&keys, &vec![true, false, true, false]), names(&["b|c", "d|e"]));
    assert!(pruned_keys(&keys, &vec![true; 4]).is_empty());
    assert_eq!(pruned_keys(&keys, &vec![false; 4]), keys);
}
