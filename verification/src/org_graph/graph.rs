//! Typed graph nodes, edge kinds and the canonical keys that name them.
use vstd::prelude::*;
use crate::text;
use crate::ids;
use crate::context::IpAddress;

verus! {

/// Every entity in the attack graph is a typed node.
#[derive(Debug, Clone, Copy, PartialEq, Eq, Structural)]
pub enum NodeType {
    User,
    Credential,
    IpAddress,
    Device,
}

/// A typed, stable identifier for a graph node: `"{kind}:{value}"`.
#[derive(Debug)]
pub struct NodeId {
    pub kind: NodeType,
    pub value: String,
}

/// The mathematical content of a [`NodeId`].
pub struct NodeIdView {
    pub kind: NodeType,
    pub value: Seq<char>,
}

impl View for NodeId {
    type V = NodeIdView;

    open spec fn view(&self) -> NodeIdView {
        NodeIdView { kind: self.kind, value: self.value@ }
    }
}

impl Clone for NodeId {
    fn clone(&self) -> (r: Self)
        ensures
            r@ == self@,
    {
        NodeId { kind: self.kind, value: self.value.clone() }
    }
}

/// The key prefix of a node kind.
pub open spec fn kind_prefix(k: NodeType) -> Seq<char> {
    match k {
        NodeType::User => "user"@,
        NodeType::Credential => "cred"@,
        NodeType::IpAddress => "ip"@,
        NodeType::Device => "dev"@,
    }
}

/// The node kind a key prefix names.
pub open spec fn prefix_kind(p: Seq<char>) -> Option<NodeType> {
    if p == "user"@ {
        Some(NodeType::User)
    } else if p == "cred"@ {
        Some(NodeType::Credential)
    } else if p == "ip"@ {
        Some(NodeType::IpAddress)
    } else if p == "dev"@ {
        Some(NodeType::Device)
    } else {
        None
    }
}

/// The canonical key of a node.
pub open spec fn spec_node_key(n: NodeIdView) -> Seq<char> {
    kind_prefix(n.kind) + ":"@ + n.value
}

/// Parsing a key: split at the first `:`, the prefix naming the kind.
pub open spec fn spec_from_key(key: Seq<char>) -> Option<NodeIdView> {
    match text::split_once(key, ':') {
        Some((p, v)) => match prefix_kind(p) {
            Some(k) => Some(NodeIdView { kind: k, value: v }),
            None => None,
        },
        None => None,
    }
}

impl NodeId {
    /// The node of a user id.
    pub fn user(id: u128) -> (n: Self)
        ensures
            n.kind == NodeType::User,
            n.value@ == ids::uuid_hyphenated(id),
    {
        NodeId { kind: NodeType::User, value: ids::uuid_string(id) }
    }

    /// The node of a credential id.
    pub fn credential(id: u128) -> (n: Self)
        ensures
            n.kind == NodeType::Credential,
            n.value@ == ids::uuid_hyphenated(id),
    {
        NodeId { kind: NodeType::Credential, value: ids::uuid_string(id) }
    }

    /// The node of an IP address (its canonical text).
    pub fn ip(addr: &IpAddress) -> (n: Self)
        ensures
            n.kind == NodeType::IpAddress,
            n.value@ == addr.text@,
    {
        NodeId { kind: NodeType::IpAddress, value: addr.text.clone() }
    }

    /// The node of a device fingerprint.
    pub fn device(fingerprint: String) -> (n: Self)
        ensures
            n.kind == NodeType::Device,
            n.value@ == fingerprint@,
    {
        NodeId { kind: NodeType::Device, value: fingerprint }
    }

    /// Canonical string key, used as store field name and union-find node id.
    pub fn key(&self) -> (r: String)
        ensures
            r@ == spec_node_key(self@),
    {
        let prefix = match self.kind {
            NodeType::User => "user",
            NodeType::Credential => "cred",
            NodeType::IpAddress => "ip",
            NodeType::Device => "dev",
        };
        text::concat3(prefix, ":", self.value.as_str())
    }

    /// Parse a canonical key back into a node; `None` if malformed.
    pub fn from_key(key: &str) -> (r: Option<Self>)
        ensures
            match r {
                Some(n) => spec_from_key(key@) == Some(n@),
                None => spec_from_key(key@) is None,
            },
    {
        let chars = text::chars_of(key);
        let found = text::find_char(&chars, ':');
        if found.is_none() {
            return None;
        }
        let pos = found.unwrap();
        assert(pos < chars.len());
        let prefix = text::slice_vec(&chars, 0, pos);
        let kind = if text::is_lit(&prefix, "user") {
            NodeType::User
        } else if text::is_lit(&prefix, "cred") {
            NodeType::Credential
        } else if text::is_lit(&prefix, "ip") {
            NodeType::IpAddress
        } else if text::is_lit(&prefix, "dev") {
            NodeType::Device
        } else {
            return None;
        };
        let value = text::slice_vec(&chars, pos + 1, chars.len());
        Some(NodeId { kind, value: text::string_from(&value) })
    }
}

proof fn lemma_prefix_kind(k: NodeType)
    ensures
        prefix_kind(kind_prefix(k)) == Some(k),
        forall|j: int| 0 <= j < kind_prefix(k).len() ==> kind_prefix(k)[j] != ':',
{
    reveal_strlit("user");
    reveal_strlit("cred");
    reveal_strlit("ip");
    reveal_strlit("dev");
    assert("user"@[0] != "cred"@[0]);
    assert("user"@.len() != "ip"@.len());
    assert("user"@[0] != "dev"@[0]);
    assert("cred"@.len() != "ip"@.len());
    assert("cred"@[0] != "dev"@[0]);
    assert("ip"@.len() != "dev"@.len());
}

/// Parsing a node's key gives the node back.
pub proof fn lemma_node_key_round_trip(n: NodeIdView)
    ensures
        spec_from_key(spec_node_key(n)) == Some(n),
{
    reveal_strlit(":");
    lemma_prefix_kind(n.kind);
    let key = spec_node_key(n);
    let p = kind_prefix(n.kind);
    let i = p.len() as int;
    assert(key[i] == ':');
    assert forall|j: int| 0 <= j < i implies key[j] != ':' by {
        assert(key[j] == p[j]);
    }
    let k = choose|k: int| 0 <= k < key.len() && key[k] == ':' && forall|j: int| 0 <= j < k ==> key[j] != ':';
    if k < i {
        assert(key[k] != ':');
    } else if k > i {
        assert(key[i] != ':');
    }
    assert(key.subrange(0, i) =~= p);
    assert(key.subrange(i + 1, key.len() as int) =~= n.value);
    assert(text::first_index_of(key, ':') == Some(i));
}

/// Why two nodes are connected; drives cluster classification.
#[derive(Debug, Clone, Copy, PartialEq, Eq, Structural)]
pub enum EdgeType {
    /// Same IP seen authenticating multiple distinct users.
    SharedIp,
    /// Same device fingerprint seen for multiple users.
    SharedDevice,
    /// User A logged in, then user B from the same IP within a short window.
    LoginSequence,
    /// User A initiated recovery and user B approved it (or vice versa).
    RecoveryChain,
    /// Two users targeted the same resource in the same action window.
    ActionLink,
}

/// The canonical key of the undirected edge between `a` and `b`:
/// the lexicographically smaller key first, joined by `|`.
pub open spec fn spec_edge_key(a: Seq<char>, b: Seq<char>) -> Seq<char> {
    if text::seq_le(a, b) { a + "|"@ + b } else { b + "|"@ + a }
}

/// Canonical edge key with lexicographic ordering.
pub fn canonical_edge_key(a: &str, b: &str) -> (r: String)
    ensures
        r@ == spec_edge_key(a@, b@),
{
    let x = text::chars_of(a);
    let y = text::chars_of(b);
    if text::seq_le_exec(&x, &y) {
        text::concat3(a, "|", b)
    } else {
        text::concat3(b, "|", a)
    }
}

/// The edge key does not depend on the order of its endpoints.
pub proof fn lemma_edge_key_symmetric(a: Seq<char>, b: Seq<char>)
    ensures
        spec_edge_key(a, b) == spec_edge_key(b, a),
{
    text::lemma_seq_le_total(a, b);
}

/// The endpoints of the undirected edge between `a` and `b`, stored with
/// the lexicographically smaller key first.
pub open spec fn spec_edge_endpoints(a: Seq<char>, b: Seq<char>) -> (Seq<char>, Seq<char>) {
    if text::seq_le(a, b) { (a, b) } else { (b, a) }
}

/// Order the endpoints of a new edge: the smaller key first.
pub fn edge_endpoints(a: &str, b: &str) -> (r: (String, String))
    ensures
        (r.0@, r.1@) == spec_edge_endpoints(a@, b@),
{
    let x = text::chars_of(a);
    let y = text::chars_of(b);
    if text::seq_le_exec(&x, &y) {
        (text::owned(a), text::owned(b))
    } else {
        (text::owned(b), text::owned(a))
    }
}

/// The key of an edge stored with its endpoints in order: `from|to`.
pub fn endpoints_key(from: &str, to: &str) -> (r: String)
    ensures
        r@ == from@ + "|"@ + to@,
{
    text::concat3(from, "|", to)
}

/// An edge's endpoints are stored in order and do not depend on the order in
/// which they were given, and the key of the stored edge is the canonical
/// edge key of its endpoints.
pub proof fn lemma_edge_endpoints_canonical(a: Seq<char>, b: Seq<char>)
    ensures
        text::seq_le(spec_edge_endpoints(a, b).0, spec_edge_endpoints(a, b).1),
        spec_edge_endpoints(a, b) == spec_edge_endpoints(b, a),
        spec_edge_endpoints(a, b).0 + "|"@ + spec_edge_endpoints(a, b).1 == spec_edge_key(a, b),
        spec_edge_key(spec_edge_endpoints(a, b).0, spec_edge_endpoints(a, b).1) == spec_edge_key(a, b),
{
    text::lemma_seq_le_total(a, b);
}

/// What happened in one request, for graph ingestion.
#[derive(Debug)]
pub struct OrgGraphUpdate {
    /// `NodeId::key()` of the first node.
    pub from_node: String,
    /// `NodeId::key()` of the second node.
    pub to_node: String,
    pub edge_type: EdgeType,
    pub ts_unix: i64,
}

} // verus!
