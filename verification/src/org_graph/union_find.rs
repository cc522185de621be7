//! Union-find over string node keys, with path compression and union by
//! rank: the clustering primitive of the org graph.
//!
//! Nodes live in a table (`keys`, `parent`, `rank`); the ghost `roots`
//! records each node's representative and the ghost `level` strictly
//! increases along parent pointers, which bounds every walk to a root.
//! Edge weights are IEEE-754 bit patterns of non-negative `f32` weights,
//! whose integer order is the order of the weights.
use vstd::prelude::*;
use crate::text;
use crate::org_graph::graph::{canonical_edge_key, spec_edge_key};

verus! {

/// Maximum nodes per tenant (enforced by the caller before `union`).
pub const MAX_NODES_PER_TENANT: usize = 50_000;

/// Edges lighter than this (`0.25f32`, as bits) are not unioned.
pub const UNION_WEIGHT_THRESHOLD_BITS: u32 = 0x3E80_0000;

/// The bits are those of an `f32` NaN.
pub open spec fn bits_is_nan(b: u32) -> bool {
    b % 0x8000_0000 > 0x7F80_0000
}

/// Where the `f32` with these bits stands in the order of numbers (both zeros
/// at 0; meaningful when the bits are not a NaN).
pub open spec fn bits_order_key(b: u32) -> int {
    if b < 0x8000_0000 { b as int } else { 0x8000_0000 - b }
}

/// `a > b` for the `f32` values with these bits (false when either is NaN).
pub open spec fn bits_gt(a: u32, b: u32) -> bool {
    !bits_is_nan(a) && !bits_is_nan(b) && bits_order_key(a) > bits_order_key(b)
}

/// `new.max(old)` for the `f32` values with these bits: a NaN gives way to
/// the other value, and of two equal values the old one is kept.
pub open spec fn bits_max(new: u32, old: u32) -> u32 {
    if bits_is_nan(new) { old } else if bits_is_nan(old) { new } else if bits_order_key(new) > bits_order_key(old) { new } else { old }
}

/// Exec form of [`bits_is_nan`].
fn f32_bits_is_nan(b: u32) -> (r: bool)
    ensures
        r == bits_is_nan(b),
{
    b % 0x8000_0000 > 0x7F80_0000
}

/// Exec comparison of the order keys of two bit patterns.
fn f32_bits_key_gt(a: u32, b: u32) -> (r: bool)
    ensures
        r == (bits_order_key(a) > bits_order_key(b)),
{
    if a < 0x8000_0000 {
        if b < 0x8000_0000 { a > b } else { a > 0 || b > 0x8000_0000 }
    } else {
        if b < 0x8000_0000 { false } else { a < b }
    }
}

/// Exec form of [`bits_gt`].
fn f32_bits_gt(a: u32, b: u32) -> (r: bool)
    ensures
        r == bits_gt(a, b),
{
    !f32_bits_is_nan(a) && !f32_bits_is_nan(b) && f32_bits_key_gt(a, b)
}

/// Exec form of [`bits_max`].
fn f32_bits_max(new: u32, old: u32) -> (r: u32)
    ensures
        r == bits_max(new, old),
{
    if f32_bits_is_nan(new) {
        old
    } else if f32_bits_is_nan(old) {
        new
    } else if f32_bits_key_gt(new, old) {
        new
    } else {
        old
    }
}

/// The edge key names `root` as one of its two endpoints.
pub open spec fn edge_touches(key: Seq<char>, root: Seq<char>) -> bool {
    match text::split_once(key, '|') {
        Some((l, r)) => l == root || r == root,
        None => false,
    }
}

fn touches(key: &str, root: &[char]) -> (r: bool)
    ensures
        r == edge_touches(key@, root@),
{
    let k = text::chars_of(key);
    match text::find_char(&k, '|') {
        Some(p) => {
            assert(p < k.len());
            let l = text::slice_vec(&k, 0, p);
            let r = text::slice_vec(&k, p + 1, k.len());
            text::chars_eq(&l, root) || text::chars_eq(&r, root)
        },
        None => false,
    }
}

fn retain_weights(ew: &Vec<(String, u32)>, root: &[char]) -> (out: Vec<(String, u32)>)
    requires
        forall|i: int, j: int| 0 <= i < ew@.len() && 0 <= j < ew@.len() && i != j ==> ew@[i].0@ != ew@[j].0@,
    ensures
        forall|i: int, j: int| 0 <= i < out@.len() && 0 <= j < out@.len() && i != j ==> out@[i].0@ != out@[j].0@,
        forall|i: int| 0 <= i < out@.len() ==> !edge_touches(#[trigger] out@[i].0@, root@)
            && exists|j: int| 0 <= j < ew@.len() && ew@[j].0@ == out@[i].0@ && ew@[j].1 == out@[i].1,
        forall|j: int| 0 <= j < ew@.len() && !edge_touches(#[trigger] ew@[j].0@, root@)
            ==> exists|i: int| 0 <= i < out@.len() && out@[i].0@ == ew@[j].0@ && out@[i].1 == ew@[j].1,
{
    let mut out: Vec<(String, u32)> = Vec::new();
    let mut j: usize = 0;
    while j < ew.len()
        invariant
            j <= ew@.len(),
            forall|a: int, b: int| 0 <= a < ew@.len() && 0 <= b < ew@.len() && a != b ==> ew@[a].0@ != ew@[b].0@,
            forall|a: int| 0 <= a < out@.len() ==> exists|b: int| 0 <= b < j && ew@[b].0@ == (#[trigger] out@[a]).0@ && ew@[b].1 == out@[a].1,
            forall|a: int, b: int| 0 <= a < out@.len() && 0 <= b < out@.len() && a != b ==> out@[a].0@ != out@[b].0@,
            forall|a: int| 0 <= a < out@.len() ==> !edge_touches(#[trigger] out@[a].0@, root@),
            forall|b: int| 0 <= b < j && !edge_touches(#[trigger] ew@[b].0@, root@)
                ==> exists|a: int| 0 <= a < out@.len() && out@[a].0@ == ew@[b].0@ && out@[a].1 == ew@[b].1,
        decreases ew.len() - j,
    {
        let keep = !touches(ew[j].0.as_str(), root);
        if keep {
            let e = (ew[j].0.clone(), ew[j].1);
            let ghost before = out@;
            out.push(e);
            proof {
                let last = out@.len() - 1;
                assert(out@[last] == e);
                assert forall|a: int, b: int| 0 <= a < out@.len() && 0 <= b < out@.len() && a != b implies out@[a].0@ != out@[b].0@ by {
                    if a == last && b < last {
                        let bb = choose|bb: int| 0 <= bb < j && ew@[bb].0@ == before[b].0@ && ew@[bb].1 == before[b].1;
                        assert(out@[b] == before[b]);
                    } else if b == last && a < last {
                        let aa = choose|aa: int| 0 <= aa < j && ew@[aa].0@ == before[a].0@ && ew@[aa].1 == before[a].1;
                        assert(out@[a] == before[a]);
                    } else if a < last && b < last {
                        assert(out@[a] == before[a] && out@[b] == before[b]);
                    }
                }
                assert forall|a: int| 0 <= a < out@.len() implies exists|b: int| 0 <= b < j + 1 && ew@[b].0@ == (#[trigger] out@[a]).0@ && ew@[b].1 == out@[a].1 by {
                    if a < last {
                        assert(out@[a] == before[a]);
                        let bb = choose|bb: int| 0 <= bb < j && ew@[bb].0@ == before[a].0@ && ew@[bb].1 == before[a].1;
                        assert(0 <= bb < j + 1);
                    } else {
                        assert(ew@[j as int].0@ == out@[a].0@);
                    }
                }
                assert forall|b: int| 0 <= b < j + 1 && !edge_touches(#[trigger] ew@[b].0@, root@)
                    implies exists|a: int| 0 <= a < out@.len() && out@[a].0@ == ew@[b].0@ && out@[a].1 == ew@[b].1 by {
                    if b < j {
                        let aa = choose|aa: int| 0 <= aa < before.len() && before[aa].0@ == ew@[b].0@ && before[aa].1 == ew@[b].1;
                        assert(out@[aa] == before[aa]);
                    } else {
                        assert(out@[last].0@ == ew@[b].0@);
                    }
                }
                assert forall|a: int| 0 <= a < out@.len() implies !edge_touches(#[trigger] out@[a].0@, root@) by {
                    if a < last {
                        assert(out@[a] == before[a]);
                    }
                }
            }
        }
        j = j + 1;
    }
    assert forall|i: int| 0 <= i < out@.len() implies !edge_touches(#[trigger] out@[i].0@, root@)
        && exists|jj: int| 0 <= jj < ew@.len() && ew@[jj].0@ == out@[i].0@ && ew@[jj].1 == out@[i].1 by {
        let b = choose|b: int| 0 <= b < j && ew@[b].0@ == out@[i].0@ && ew@[b].1 == out@[i].1;
    }
    out
}

/// Canonical key of the edge between two roots.
fn edge_weight_key(a: &str, b: &str) -> (r: String)
    ensures
        r@ == spec_edge_key(a@, b@),
{
    canonical_edge_key(a, b)
}

/// The keys of the nodes among the first `m` whose root is `r`, in order.
pub open spec fn members_upto(nodes: Seq<Seq<char>>, roots: Seq<int>, r: int, m: int) -> Seq<Seq<char>>
    decreases m,
{
    if m <= 0 {
        Seq::empty()
    } else {
        let p = members_upto(nodes, roots, r, m - 1);
        if roots[m - 1] == r { p.push(nodes[m - 1]) } else { p }
    }
}

/// Where the `k`-th member among the first `m` nodes sits in the table.
pub open spec fn member_index(roots: Seq<int>, r: int, m: int, k: int) -> int
    decreases m,
{
    if m <= 0 {
        0
    } else {
        let before = count_root(roots, r, m - 1);
        if roots[m - 1] == r && k == before { m - 1 } else { member_index(roots, r, m - 1, k) }
    }
}

/// How many of the first `m` nodes have root `r`.
pub open spec fn count_root(roots: Seq<int>, r: int, m: int) -> int
    decreases m,
{
    if m <= 0 { 0 } else { count_root(roots, r, m - 1) + if roots[m - 1] == r { 1int } else { 0int } }
}

/// The clusters of more than one node whose root is among the first `m`
/// nodes, as (root key, member keys).
pub open spec fn clusters_upto(nodes: Seq<Seq<char>>, roots: Seq<int>, m: int) -> Seq<(Seq<char>, Seq<Seq<char>>)>
    decreases m,
{
    if m <= 0 {
        Seq::empty()
    } else {
        let p = clusters_upto(nodes, roots, m - 1);
        let r = m - 1;
        let members = members_upto(nodes, roots, r, nodes.len() as int);
        if roots[r] == r && members.len() > 1 { p.push((nodes[r], members)) } else { p }
    }
}

/// The views of a list of clusters.
pub open spec fn clusters_view(v: Seq<(String, Vec<String>)>) -> Seq<(Seq<char>, Seq<Seq<char>>)> {
    Seq::new(v.len(), |i: int| (v[i].0@, text::strings_view(v[i].1@)))
}

/// A root's rank after it absorbed a root of equal rank (`saturating_add(1)`).
pub open spec fn rank_after_tie(r: u32) -> u32 {
    if r < u32::MAX { (r + 1) as u32 } else { r }
}

pub struct UnionFind {
    keys: Vec<String>,
    parent: Vec<usize>,
    rank: Vec<u32>,
    /// Edge key (`"{root_a}|{root_b}"`, ordered) to the heaviest weight seen.
    edge_weights: Vec<(String, u32)>,
    roots: Ghost<Seq<int>>,
    level: Ghost<Seq<nat>>,
}

impl UnionFind {
    /// The keys of the nodes, in table order.
    pub closed spec fn nodes(&self) -> Seq<Seq<char>> {
        text::strings_view(self.keys@)
    }

    /// Well-formedness: a forest over distinct keys whose ghost roots and
    /// levels describe it.
    #[verifier::opaque]
    pub closed spec fn wf(&self) -> bool {
        let n = self.keys@.len();
        &&& self.parent@.len() == n
        &&& self.rank@.len() == n
        &&& self.roots@.len() == n
        &&& self.level@.len() == n
        &&& forall|i: int, j: int| 0 <= i < n && 0 <= j < n && i != j ==> self.keys@[i]@ != self.keys@[j]@
        &&& forall|i: int| 0 <= i < n ==> (#[trigger] self.parent@[i]) < n
        &&& forall|i: int| 0 <= i < n ==> 0 <= #[trigger] self.roots@[i] < n
        &&& forall|i: int| 0 <= i < n ==> self.roots@[self.roots@[i]] == #[trigger] self.roots@[i]
        &&& forall|i: int| 0 <= i < n ==> self.roots@[self.parent@[i] as int] == #[trigger] self.roots@[i]
        &&& forall|i: int| 0 <= i < n ==> (self.parent@[i] == i <==> #[trigger] self.roots@[i] == i)
        &&& forall|i: int| 0 <= i < n && self.parent@[i] != i
                ==> #[trigger] self.level@[i] < self.level@[self.parent@[i] as int]
        &&& forall|i: int| 0 <= i < n && self.roots@[i] != i
                ==> #[trigger] self.level@[i] < self.level@[self.roots@[i]]
        &&& forall|i: int, j: int| 0 <= i < self.edge_weights@.len() && 0 <= j < self.edge_weights@.len() && i != j
                ==> self.edge_weights@[i].0@ != self.edge_weights@[j].0@
    }

    /// The clusters of more than one node, by root in table order.
    pub closed spec fn clusters(&self) -> Seq<(Seq<char>, Seq<Seq<char>>)> {
        clusters_upto(self.nodes(), self.roots@, self.keys@.len() as int)
    }

    /// The members of a tracked node's cluster, in table order.
    pub closed spec fn class_of(&self, a: Seq<char>) -> Seq<Seq<char>> {
        members_upto(self.nodes(), self.roots@, self.roots@[self.idx(a)], self.keys@.len() as int)
    }

    /// The node is tracked.
    pub closed spec fn contains(&self, a: Seq<char>) -> bool {
        exists|i: int| 0 <= i < self.keys@.len() && #[trigger] self.keys@[i]@ == a
    }

    /// The table index of a tracked node.
    pub closed spec fn idx(&self, a: Seq<char>) -> int {
        choose|i: int| 0 <= i < self.keys@.len() && #[trigger] self.keys@[i]@ == a
    }

    /// The representative key of `a`'s cluster (`a` itself when untracked).
    pub closed spec fn root_key(&self, a: Seq<char>) -> Seq<char> {
        if self.contains(a) { self.keys@[self.roots@[self.idx(a)]]@ } else { a }
    }

    /// `a` and `b` are in the same cluster (every node is in its own).
    pub open spec fn same(&self, a: Seq<char>, b: Seq<char>) -> bool {
        self.root_key(a) == self.root_key(b)
    }

    /// The rank of a tracked node (0 when untracked, as a new node's).
    pub closed spec fn rank_of(&self, a: Seq<char>) -> u32 {
        if self.contains(a) { self.rank@[self.idx(a)] } else { 0 }
    }

    /// The recorded weight for an edge key (0 when none).
    pub closed spec fn weight_of(&self, key: Seq<char>) -> u32 {
        if exists|i: int| 0 <= i < self.edge_weights@.len() && #[trigger] self.edge_weights@[i].0@ == key {
            self.edge_weights@[choose|i: int| 0 <= i < self.edge_weights@.len() && #[trigger] self.edge_weights@[i].0@ == key].1
        } else {
            0
        }
    }

    /// An empty structure.
    pub fn new() -> (r: Self)
        ensures
            r.wf(),
            r.nodes().len() == 0,
            forall|a: Seq<char>| !r.contains(a),
            forall|k: Seq<char>| r.weight_of(k) == 0,
    {
        let r = UnionFind {
            keys: Vec::new(),
            parent: Vec::new(),
            rank: Vec::new(),
            edge_weights: Vec::new(),
            roots: Ghost(Seq::empty()),
            level: Ghost(Seq::empty()),
        };
        proof {
            reveal(UnionFind::wf);
        }
        r
    }

    /// Total number of nodes tracked.
    pub fn node_count(&self) -> (r: usize)
        ensures
            r == self.nodes().len(),
    {
        self.keys.len()
    }

    fn lookup(&self, key: &str) -> (r: Option<usize>)
        requires
            self.wf(),
        ensures
            match r {
                Some(i) => i < self.keys@.len() && self.keys@[i as int]@ == key@ && self.contains(key@)
                    && self.idx(key@) == i,
                None => !self.contains(key@),
            },
    {
        reveal(UnionFind::wf);
        let mut i: usize = 0;
        while i < self.keys.len()
            invariant
                self.wf(),
                i <= self.keys@.len(),
                forall|j: int| 0 <= j < i ==> self.keys@[j]@ != key@,
            decreases self.keys.len() - i,
        {
            proof {
                reveal(UnionFind::wf);
            }
            if text::str_eq(self.keys[i].as_str(), key) {
                proof {
                    let k = self.idx(key@);
                    assert(self.keys@[i as int]@ == key@);
                    assert(self.keys@[k]@ == key@);
                }
                return Some(i);
            }
            i = i + 1;
        }
        None
    }

    /// Ensure a node exists (no-op if already present); a new node is its
    /// own singleton cluster.
    pub fn add_node(&mut self, key: &str)
        requires
            old(self).wf(),
        ensures
            final(self).wf(),
            final(self).contains(key@),
            forall|a: Seq<char>| #[trigger] final(self).contains(a) <==> old(self).contains(a) || a == key@,
            forall|a: Seq<char>| #[trigger] final(self).root_key(a) == old(self).root_key(a),
            forall|a: Seq<char>| #[trigger] final(self).rank_of(a) == old(self).rank_of(a),
            forall|k: Seq<char>| #[trigger] final(self).weight_of(k) == old(self).weight_of(k),
            old(self).contains(key@) ==> final(self).nodes() == old(self).nodes(),
            !old(self).contains(key@) ==> final(self).nodes() == old(self).nodes().push(key@),
    {
        reveal(UnionFind::wf);
        if self.lookup(key).is_none() {
            let ghost old_self = *self;
            let n = self.keys.len();
            self.keys.push(text::owned(key));
            self.parent.push(n);
            self.rank.push(0);
            self.roots = Ghost(self.roots@.push(n as int));
            self.level = Ghost(self.level@.push(0));
            proof {
                assert(self.nodes() =~= old_self.nodes().push(key@));
                assert forall|a: Seq<char>| #[trigger] self.contains(a) <==> old_self.contains(a) || a == key@ by {
                    if old_self.contains(a) {
                        let i = old_self.idx(a);
                        assert(self.keys@[i]@ == a);
                    }
                    if a == key@ {
                        assert(self.keys@[n as int]@ == a);
                    }
                    if self.contains(a) {
                        let i = self.idx(a);
                        if i < n {
                            assert(old_self.keys@[i]@ == a);
                        }
                    }
                }
                assert forall|a: Seq<char>| #[trigger] self.root_key(a) == old_self.root_key(a)
                    && self.rank_of(a) == old_self.rank_of(a) by {
                    if old_self.contains(a) {
                        let i = old_self.idx(a);
                        let j = self.idx(a);
                        assert(self.keys@[i]@ == a);
                        assert(j == i);
                    } else if a == key@ {
                        let j = self.idx(a);
                        assert(self.keys@[n as int]@ == a);
                        assert(j == n);
                    }
                }
                assert forall|k: Seq<char>| #[trigger] self.weight_of(k) == old_self.weight_of(k) by {
                    assert(self.edge_weights@ == old_self.edge_weights@);
                }
            }
        }
    }

    /// Walk from node `i` to its root, then point every node of the walk at
    /// the root.
    fn find_index(&mut self, i: usize) -> (root: usize)
        requires
            old(self).wf(),
            i < old(self).keys@.len(),
        ensures
            final(self).wf(),
            root as int == old(self).roots@[i as int],
            root < old(self).keys@.len(),
            final(self).keys@ == old(self).keys@,
            final(self).roots@ == old(self).roots@,
            final(self).edge_weights@ == old(self).edge_weights@,
            final(self).rank@ == old(self).rank@,
    {
        reveal(UnionFind::wf);
        let ghost r = self.roots@[i as int];
        let mut path: Vec<usize> = Vec::new();
        path.push(i);
        let mut current = i;
        while self.parent[current] != current
            invariant
                self.wf(),
                current < self.keys@.len(),
                self.parent@.len() == self.keys@.len(),
                self.roots@.len() == self.keys@.len(),
                self.roots@[current as int] == r,
                forall|k: int| 0 <= k < path@.len() ==> (#[trigger] path@[k]) < self.keys@.len()
                    && self.roots@[path@[k] as int] == r,
            decreases self.level@[r] - self.level@[current as int],
        {
            proof {
                reveal(UnionFind::wf);
            }
            let p = self.parent[current];
            path.push(p);
            current = p;
        }
        let root = current;
        let mut k: usize = 0;
        while k < path.len()
            invariant
                self.wf(),
                root as int == r,
                self.keys@ == old(self).keys@,
                self.roots@ == old(self).roots@,
                self.edge_weights@ == old(self).edge_weights@,
                self.rank@ == old(self).rank@,
                self.level@ == old(self).level@,
                forall|m: int| 0 <= m < path@.len() ==> (#[trigger] path@[m]) < self.keys@.len()
                    && self.roots@[path@[m] as int] == r,
            decreases path.len() - k,
        {
            proof {
                reveal(UnionFind::wf);
            }
            let node = path[k];
            self.parent.set(node, root);
            k = k + 1;
        }
        root
    }

    /// Find the representative key of a node's cluster, compressing the path
    /// to it. An untracked node is added first.
    pub fn find(&mut self, x: &str) -> (r: String)
        requires
            old(self).wf(),
        ensures
            final(self).wf(),
            r@ == old(self).root_key(x@),
            forall|a: Seq<char>| #[trigger] final(self).contains(a) <==> old(self).contains(a) || a == x@,
            forall|a: Seq<char>| #[trigger] final(self).root_key(a) == old(self).root_key(a),
            forall|a: Seq<char>| #[trigger] final(self).rank_of(a) == old(self).rank_of(a),
            forall|k: Seq<char>| #[trigger] final(self).weight_of(k) == old(self).weight_of(k),
    {
        self.add_node(x);
        let i = self.lookup(x).unwrap();
        let ghost mid = *self;
        let root = self.find_index(i);
        proof {
            Self::lemma_same_tables(mid, *self);
            Self::lemma_same_ranks(mid, *self);
            assert(mid.root_key(x@) == mid.keys@[root as int]@);
        }
        let r = self.keys[root].clone();
        assert(r@ == self.keys@[root as int]@);
        r
    }

    proof fn lemma_same_tables(a: UnionFind, b: UnionFind)
        requires
            a.keys@ == b.keys@,
            a.roots@ == b.roots@,
            a.edge_weights@ == b.edge_weights@,
        ensures
            forall|x: Seq<char>| #![trigger a.contains(x)] #![trigger b.contains(x)] a.contains(x) == b.contains(x),
            forall|x: Seq<char>| #![trigger a.root_key(x)] #![trigger b.root_key(x)] a.root_key(x) == b.root_key(x),
            forall|k: Seq<char>| #![trigger a.weight_of(k)] #![trigger b.weight_of(k)] a.weight_of(k) == b.weight_of(k),
            a.nodes() == b.nodes(),
    {
    }

    proof fn lemma_same_ranks(a: UnionFind, b: UnionFind)
        requires
            a.keys@ == b.keys@,
            a.rank@ == b.rank@,
        ensures
            forall|x: Seq<char>| #![trigger a.rank_of(x)] #![trigger b.rank_of(x)] a.rank_of(x) == b.rank_of(x),
    {
    }

    /// True if the two nodes are in the same cluster.
    pub fn same_cluster(&mut self, x: &str, y: &str) -> (r: bool)
        requires
            old(self).wf(),
        ensures
            final(self).wf(),
            r == old(self).same(x@, y@),
            forall|a: Seq<char>| #[trigger] final(self).contains(a) <==> old(self).contains(a) || a == x@ || a == y@,
            forall|a: Seq<char>| #[trigger] final(self).root_key(a) == old(self).root_key(a),
            forall|a: Seq<char>| #[trigger] final(self).rank_of(a) == old(self).rank_of(a),
    {
        let rx = self.find(x);
        let ry = self.find(y);
        text::str_eq(rx.as_str(), ry.as_str())
    }

    fn weight_index(&self, key: &str) -> (r: Option<usize>)
        ensures
            match r {
                Some(i) => i < self.edge_weights@.len() && self.edge_weights@[i as int].0@ == key@,
                None => forall|i: int| 0 <= i < self.edge_weights@.len() ==> #[trigger] self.edge_weights@[i].0@ != key@,
            },
    {
        let mut i: usize = 0;
        while i < self.edge_weights.len()
            invariant
                i <= self.edge_weights@.len(),
                forall|j: int| 0 <= j < i ==> #[trigger] self.edge_weights@[j].0@ != key@,
            decreases self.edge_weights.len() - i,
        {
            if text::str_eq(self.edge_weights[i].0.as_str(), key) {
                return Some(i);
            }
            i = i + 1;
        }
        None
    }

    fn get_weight(&self, key: &str) -> (r: u32)
        requires
            self.wf(),
        ensures
            r == self.weight_of(key@),
    {
        proof {
            reveal(UnionFind::wf);
        }
        match self.weight_index(key) {
            Some(i) => {
                proof {
                    let j = choose|j: int| 0 <= j < self.edge_weights@.len() && #[trigger] self.edge_weights@[j].0@ == key@;
                    assert(self.edge_weights@[i as int].0@ == key@);
                    if j != i {
                        assert(self.edge_weights@[j].0@ != self.edge_weights@[i as int].0@);
                    }
                }
                self.edge_weights[i].1
            },
            None => 0,
        }
    }

    fn set_weight(&mut self, key: String, w: u32)
        requires
            old(self).wf(),
        ensures
            final(self).wf(),
            final(self).weight_of(key@) == w,
            forall|k: Seq<char>| k != key@ ==> #[trigger] final(self).weight_of(k) == old(self).weight_of(k),
            final(self).keys@ == old(self).keys@,
            final(self).parent@ == old(self).parent@,
            final(self).rank@ == old(self).rank@,
            final(self).roots@ == old(self).roots@,
            final(self).level@ == old(self).level@,
    {
        proof {
            reveal(UnionFind::wf);
        }
        let ghost old_w = self.edge_weights@;
        let ghost kv = key@;
        match self.weight_index(key.as_str()) {
            Some(i) => {
                self.edge_weights.set(i, (key, w));
                proof {
                    assert forall|k: Seq<char>| k != kv implies #[trigger] self.weight_of(k) == old(self).weight_of(k) by {
                        if exists|j: int| 0 <= j < old_w.len() && #[trigger] old_w[j].0@ == k {
                            let j = choose|j: int| 0 <= j < old_w.len() && #[trigger] old_w[j].0@ == k;
                            assert(self.edge_weights@[j].0@ == k);
                        }
                        if exists|j: int| 0 <= j < self.edge_weights@.len() && #[trigger] self.edge_weights@[j].0@ == k {
                            let j = choose|j: int| 0 <= j < self.edge_weights@.len() && #[trigger] self.edge_weights@[j].0@ == k;
                            assert(old_w[j].0@ == k);
                        }
                    }
                    let j = choose|j: int| 0 <= j < self.edge_weights@.len() && #[trigger] self.edge_weights@[j].0@ == kv;
                    assert(self.edge_weights@[i as int].0@ == kv);
                    if j != i {
                        assert(old_w[j].0@ == kv);
                    }
                }
            },
            None => {
                self.edge_weights.push((key, w));
                proof {
                    let n = old_w.len() as int;
                    assert forall|k: Seq<char>| k != kv implies #[trigger] self.weight_of(k) == old(self).weight_of(k) by {
                        if exists|j: int| 0 <= j < old_w.len() && #[trigger] old_w[j].0@ == k {
                            let j = choose|j: int| 0 <= j < old_w.len() && #[trigger] old_w[j].0@ == k;
                            assert(self.edge_weights@[j].0@ == k);
                        }
                        if exists|j: int| 0 <= j < self.edge_weights@.len() && #[trigger] self.edge_weights@[j].0@ == k {
                            let j = choose|j: int| 0 <= j < self.edge_weights@.len() && #[trigger] self.edge_weights@[j].0@ == k;
                            assert(j < n);
                            assert(old_w[j].0@ == k);
                        }
                    }
                    assert(self.edge_weights@[n].0@ == kv);
                    let j = choose|j: int| 0 <= j < self.edge_weights@.len() && #[trigger] self.edge_weights@[j].0@ == kv;
                    if j != n {
                        assert(old_w[j].0@ == kv);
                    }
                }
            },
        }
    }

    /// Attach root `c` under root `r`.
    fn link(&mut self, r: usize, c: usize)
        requires
            old(self).wf(),
            r < old(self).keys@.len(),
            c < old(self).keys@.len(),
            old(self).roots@[r as int] == r,
            old(self).roots@[c as int] == c,
            r != c,
        ensures
            final(self).wf(),
            final(self).keys@ == old(self).keys@,
            final(self).edge_weights@ == old(self).edge_weights@,
            final(self).rank@ == old(self).rank@,
            final(self).roots@.len() == old(self).roots@.len(),
            forall|j: int| 0 <= j < old(self).roots@.len() ==> #[trigger] final(self).roots@[j]
                == if old(self).roots@[j] == c { r as int } else { old(self).roots@[j] },
    {
        proof {
            reveal(UnionFind::wf);
        }
        let ghost old_roots = self.roots@;
        let ghost old_level = self.level@;
        let ghost old_parent = self.parent@;
        self.parent.set(c, r);
        let ghost lr: nat = if old_level[r as int] >= old_level[c as int] { old_level[r as int] + 1 } else { old_level[c as int] + 1 };
        self.roots = Ghost(Seq::new(old_roots.len(), |j: int| if old_roots[j] == c { r as int } else { old_roots[j] }));
        self.level = Ghost(old_level.update(r as int, lr));
        proof {
            reveal(UnionFind::wf);
            let n = self.keys@.len() as int;
            assert forall|i: int| 0 <= i < n && self.parent@[i] != i
                implies #[trigger] self.level@[i] < self.level@[self.parent@[i] as int] by {
                if i == c {
                } else {
                    assert(self.parent@[i] == old_parent[i]);
                }
            }
            assert forall|i: int| 0 <= i < n && self.roots@[i] != i
                implies #[trigger] self.level@[i] < self.level@[self.roots@[i]] by {
                if old_roots[i] == c {
                    if i != c {
                        assert(old_level[i] < old_level[c as int]);
                    }
                }
            }
            assert forall|i: int| 0 <= i < n implies self.roots@[self.parent@[i] as int] == #[trigger] self.roots@[i] by {
                if i != c {
                    assert(self.parent@[i] == old_parent[i]);
                }
            }
            assert forall|i: int| 0 <= i < n implies (self.parent@[i] == i <==> #[trigger] self.roots@[i] == i) by {
                if i != c {
                    assert(self.parent@[i] == old_parent[i]);
                }
            }
            assert(self.wf());
        }
    }

    proof fn lemma_link_root_keys(a: UnionFind, b: UnionFind, r: int, c: int)
        requires
            a.wf(),
            a.keys@ == b.keys@,
            0 <= r < a.keys@.len(),
            0 <= c < a.keys@.len(),
            a.roots@[r] == r,
            a.roots@[c] == c,
            b.roots@.len() == a.roots@.len(),
            forall|j: int| 0 <= j < a.roots@.len() ==> #[trigger] b.roots@[j]
                == if a.roots@[j] == c { r } else { a.roots@[j] },
        ensures
            forall|p: Seq<char>| #[trigger] b.root_key(p)
                == if a.root_key(p) == a.keys@[c]@ { a.keys@[r]@ } else { a.root_key(p) },
    {
        reveal(UnionFind::wf);
        assert forall|p: Seq<char>| #[trigger] b.root_key(p)
            == if a.root_key(p) == a.keys@[c]@ { a.keys@[r]@ } else { a.root_key(p) } by {
            assert(a.contains(p) == b.contains(p));
            if a.contains(p) {
                let i = a.idx(p);
                assert(b.idx(p) == i);
                let q = a.roots@[i];
                if q != c {
                    assert(a.keys@[q]@ != a.keys@[c]@);
                }
            } else {
                if p == a.keys@[c]@ {
                    assert(a.contains(p));
                }
            }
        }
    }

    proof fn lemma_same_after_merge(a: UnionFind, b: UnionFind, kr: Seq<char>, kc: Seq<char>)
        requires
            kr != kc,
            forall|p: Seq<char>| #[trigger] b.root_key(p) == if a.root_key(p) == kc { kr } else { a.root_key(p) },
        ensures
            forall|p: Seq<char>, q: Seq<char>| #[trigger] b.same(p, q) == (a.same(p, q)
                || (a.root_key(p) == kr && a.root_key(q) == kc)
                || (a.root_key(p) == kc && a.root_key(q) == kr)),
    {
        assert forall|p: Seq<char>, q: Seq<char>| #[trigger] b.same(p, q) == (a.same(p, q)
            || (a.root_key(p) == kr && a.root_key(q) == kc)
            || (a.root_key(p) == kc && a.root_key(q) == kr)) by {
            assert(b.root_key(p) == if a.root_key(p) == kc { kr } else { a.root_key(p) });
            assert(b.root_key(q) == if a.root_key(q) == kc { kr } else { a.root_key(q) });
        }
    }

    /// Merge the clusters of two distinct roots, by rank.
    #[verifier::spinoff_prover]
    fn merge_roots(&mut self, rx: usize, ry: usize, weight_bits: u32)
        requires
            old(self).wf(),
            rx < old(self).keys@.len(),
            ry < old(self).keys@.len(),
            old(self).roots@[rx as int] == rx,
            old(self).roots@[ry as int] == ry,
            rx != ry,
        ensures
            final(self).wf(),
            final(self).keys@ == old(self).keys@,
            ({
                let kx = old(self).keys@[rx as int]@;
                let ky = old(self).keys@[ry as int]@;
                let tie = old(self).rank@[rx as int] == old(self).rank@[ry as int];
                let kw = if old(self).rank@[rx as int] >= old(self).rank@[ry as int] { kx } else { ky };
                &&& forall|p: Seq<char>| #[trigger] final(self).root_key(p)
                    == if old(self).root_key(p) == kx || old(self).root_key(p) == ky { kw } else { old(self).root_key(p) }
                &&& forall|a: Seq<char>| #[trigger] final(self).rank_of(a)
                    == if tie && a == kw { rank_after_tie(old(self).rank_of(kw)) } else { old(self).rank_of(a) }
            }),
            ({
                let kx = old(self).keys@[rx as int]@;
                let ky = old(self).keys@[ry as int]@;
                let key = spec_edge_key(kx, ky);
                &&& forall|p: Seq<char>, q: Seq<char>| #[trigger] final(self).same(p, q) == (old(self).same(p, q)
                    || (old(self).root_key(p) == kx && old(self).root_key(q) == ky)
                    || (old(self).root_key(p) == ky && old(self).root_key(q) == kx))
                &&& final(self).weight_of(key) == bits_max(weight_bits, old(self).weight_of(key))
                &&& forall|k: Seq<char>| k != key ==> #[trigger] final(self).weight_of(k) == old(self).weight_of(k)
            }),
    {
        proof {
            reveal(UnionFind::wf);
        }
        let rank_x = self.rank[rx];
        let rank_y = self.rank[ry];
        let (new_root, child) = if rank_x >= rank_y { (rx, ry) } else { (ry, rx) };
        let ghost s1 = *self;
        let ghost kr = s1.keys@[new_root as int]@;
        let ghost kc = s1.keys@[child as int]@;
        proof {
            Self::lemma_rank_of_index(s1, rx as int);
            Self::lemma_rank_of_index(s1, ry as int);
            assert(kr != kc);
        }
        self.link(new_root, child);
        let ghost s2 = *self;
        proof {
            Self::lemma_link_root_keys(s1, s2, new_root as int, child as int);
            Self::lemma_same_ranks(s1, s2);
        }
        if rank_x == rank_y {
            self.bump_rank(new_root);
        }
        let ghost s3 = *self;
        proof {
            Self::lemma_same_root_keys(s2, s3);
        }
        let key = edge_weight_key(self.keys[new_root].as_str(), self.keys[child].as_str());
        let existing = self.get_weight(key.as_str());
        let w = f32_bits_max(weight_bits, existing);
        self.set_weight(key, w);
        proof {
            Self::lemma_same_root_keys(s3, *self);
            Self::lemma_same_ranks(s3, *self);
            assert forall|p: Seq<char>| #[trigger] self.root_key(p) == if s1.root_key(p) == kc { kr } else { s1.root_key(p) } by {
                assert(s2.root_key(p) == if s1.root_key(p) == kc { kr } else { s1.root_key(p) });
            }
            Self::lemma_same_after_merge(s1, *self, kr, kc);
            crate::org_graph::graph::lemma_edge_key_symmetric(s1.keys@[rx as int]@, s1.keys@[ry as int]@);
            assert forall|k: Seq<char>| #[trigger] s3.weight_of(k) == s1.weight_of(k) by {}
            if rank_x != rank_y {
                assert forall|a: Seq<char>| #[trigger] self.rank_of(a) == s1.rank_of(a) by {
                    assert(s2.rank_of(a) == s1.rank_of(a));
                }
            }
        }
    }

    /// Raise a root's rank by one (saturating), after a merge of equal ranks.
    fn bump_rank(&mut self, r: usize)
        requires
            old(self).wf(),
            r < old(self).keys@.len(),
        ensures
            final(self).wf(),
            final(self).keys@ == old(self).keys@,
            final(self).roots@ == old(self).roots@,
            final(self).edge_weights@ == old(self).edge_weights@,
            forall|a: Seq<char>| #[trigger] final(self).rank_of(a)
                == if a == old(self).keys@[r as int]@ { rank_after_tie(old(self).rank_of(a)) } else { old(self).rank_of(a) },
    {
        proof {
            reveal(UnionFind::wf);
        }
        let ghost s0 = *self;
        let bumped = self.rank[r].saturating_add(1);
        self.rank.set(r, bumped);
        proof {
            reveal(UnionFind::wf);
            Self::lemma_same_tables(s0, *self);
            let kr = s0.keys@[r as int]@;
            assert forall|a: Seq<char>| #[trigger] self.rank_of(a)
                == if a == kr { rank_after_tie(s0.rank_of(a)) } else { s0.rank_of(a) } by {
                assert(self.contains(a) == s0.contains(a));
                if s0.contains(a) {
                    let i = s0.idx(a);
                    assert(self.idx(a) == i);
                    if a == kr {
                        if i != r as int {
                            assert(s0.keys@[i]@ != s0.keys@[r as int]@);
                        }
                    } else {
                        assert(i != r as int);
                    }
                } else {
                    if a == kr {
                        assert(s0.keys@[r as int]@ == a);
                    }
                }
            }
        }
    }

    proof fn lemma_same_root_keys(a: UnionFind, b: UnionFind)
        requires
            a.keys@ == b.keys@,
            a.roots@ == b.roots@,
        ensures
            forall|x: Seq<char>| #![trigger a.contains(x)] #![trigger b.contains(x)] a.contains(x) == b.contains(x),
            forall|x: Seq<char>| #![trigger a.root_key(x)] #![trigger b.root_key(x)] a.root_key(x) == b.root_key(x),
    {
    }

    proof fn lemma_root_facts(a: UnionFind, rx: int, ry: int, ix: int, iy: int)
        requires
            a.wf(),
            0 <= ix < a.keys@.len(),
            0 <= iy < a.keys@.len(),
            rx == a.roots@[ix],
            ry == a.roots@[iy],
        ensures
            0 <= rx < a.keys@.len(),
            0 <= ry < a.keys@.len(),
            rx != ry ==> a.keys@[rx]@ != a.keys@[ry]@,
            a.roots@[rx] == rx,
            a.roots@[ry] == ry,
    {
        reveal(UnionFind::wf);
    }

    /// Record a heavier weight for the self-edge of a root.
    fn reinforce(&mut self, r: usize, weight_bits: u32)
        requires
            old(self).wf(),
            r < old(self).keys@.len(),
        ensures
            final(self).wf(),
            final(self).keys@ == old(self).keys@,
            final(self).roots@ == old(self).roots@,
            final(self).rank@ == old(self).rank@,
            ({
                let k = old(self).keys@[r as int]@;
                let key = spec_edge_key(k, k);
                &&& final(self).weight_of(key) == if bits_gt(weight_bits, old(self).weight_of(key)) { weight_bits } else { old(self).weight_of(key) }
                &&& forall|q: Seq<char>| q != key ==> #[trigger] final(self).weight_of(q) == old(self).weight_of(q)
            }),
    {
        let key = edge_weight_key(self.keys[r].as_str(), self.keys[r].as_str());
        let current = self.get_weight(key.as_str());
        if f32_bits_gt(weight_bits, current) {
            self.set_weight(key, weight_bits);
        }
    }

    proof fn lemma_rank_of_index(u: UnionFind, i: int)
        requires
            u.wf(),
            0 <= i < u.keys@.len(),
        ensures
            u.contains(u.keys@[i]@),
            u.idx(u.keys@[i]@) == i,
            u.rank_of(u.keys@[i]@) == u.rank@[i],
    {
        reveal(UnionFind::wf);
        let k = u.keys@[i]@;
        assert(u.contains(k));
        let j = u.idx(k);
        if j != i {
            assert(u.keys@[j]@ != u.keys@[i]@);
        }
    }

    /// Union the clusters of two tracked nodes with a heavy enough edge.
    #[verifier::spinoff_prover]
    fn merge_nodes(&mut self, ix: usize, iy: usize, weight_bits: u32) -> (merged: bool)
        requires
            old(self).wf(),
            ix < old(self).keys@.len(),
            iy < old(self).keys@.len(),
        ensures
            final(self).wf(),
            final(self).keys@ == old(self).keys@,
            ({
                let kx = old(self).keys@[old(self).roots@[ix as int]]@;
                let ky = old(self).keys@[old(self).roots@[iy as int]]@;
                let kw = if old(self).rank_of(kx) >= old(self).rank_of(ky) { kx } else { ky };
                &&& forall|p: Seq<char>| #[trigger] final(self).root_key(p)
                    == if kx != ky && (old(self).root_key(p) == kx || old(self).root_key(p) == ky) { kw } else { old(self).root_key(p) }
                &&& forall|a: Seq<char>| #[trigger] final(self).rank_of(a)
                    == if kx != ky && old(self).rank_of(kx) == old(self).rank_of(ky) && a == kw {
                        rank_after_tie(old(self).rank_of(kw))
                    } else {
                        old(self).rank_of(a)
                    }
            }),
            ({
                let kx = old(self).keys@[old(self).roots@[ix as int]]@;
                let ky = old(self).keys@[old(self).roots@[iy as int]]@;
                let key = spec_edge_key(kx, ky);
                &&& merged == (kx != ky)
                &&& forall|p: Seq<char>, q: Seq<char>| #[trigger] final(self).same(p, q) == (old(self).same(p, q)
                    || (old(self).root_key(p) == kx && old(self).root_key(q) == ky)
                    || (old(self).root_key(p) == ky && old(self).root_key(q) == kx))
                &&& final(self).weight_of(key) == if kx != ky {
                    bits_max(weight_bits, old(self).weight_of(key))
                } else if bits_gt(weight_bits, old(self).weight_of(key)) {
                    weight_bits
                } else {
                    old(self).weight_of(key)
                }
                &&& forall|k: Seq<char>| k != key ==> #[trigger] final(self).weight_of(k) == old(self).weight_of(k)
            }),
    {
        let ghost s0 = *self;
        let rx = self.find_index(ix);
        let ry = self.find_index(iy);
        let ghost s1 = *self;
        proof {
            Self::lemma_same_tables(s0, *self);
            Self::lemma_same_ranks(s0, *self);
            Self::lemma_root_facts(*self, rx as int, ry as int, ix as int, iy as int);
            Self::lemma_rank_of_index(s1, rx as int);
            Self::lemma_rank_of_index(s1, ry as int);
        }
        if rx == ry {
            self.reinforce(rx, weight_bits);
            proof {
                Self::lemma_same_root_keys(s1, *self);
                Self::lemma_same_ranks(s1, *self);
            }
            return false;
        }
        self.merge_roots(rx, ry, weight_bits);
        true
    }

    /// Union two nodes with an edge weight (the IEEE-754 bits of an `f32`,
    /// compared as `f32` values). Returns true when they were in different
    /// clusters and a merge happened. Edges lighter than the threshold
    /// (negative ones included) only register the nodes.
    #[verifier::spinoff_prover]
    pub fn union(&mut self, x: &str, y: &str, weight_bits: u32) -> (merged: bool)
        requires
            old(self).wf(),
        ensures
            final(self).wf(),
            forall|a: Seq<char>| #[trigger] final(self).contains(a) <==> old(self).contains(a) || a == x@ || a == y@,
            bits_gt(UNION_WEIGHT_THRESHOLD_BITS, weight_bits) ==> {
                &&& !merged
                &&& forall|a: Seq<char>, b: Seq<char>| #[trigger] final(self).same(a, b) == old(self).same(a, b)
                &&& forall|p: Seq<char>| #[trigger] final(self).root_key(p) == old(self).root_key(p)
                &&& forall|a: Seq<char>| #[trigger] final(self).rank_of(a) == old(self).rank_of(a)
                &&& forall|k: Seq<char>| #[trigger] final(self).weight_of(k) == old(self).weight_of(k)
            },
            !bits_gt(UNION_WEIGHT_THRESHOLD_BITS, weight_bits) ==> {
                let kx = old(self).root_key(x@);
                let ky = old(self).root_key(y@);
                let kw = if old(self).rank_of(kx) >= old(self).rank_of(ky) { kx } else { ky };
                &&& forall|p: Seq<char>| #[trigger] final(self).root_key(p)
                    == if kx != ky && (old(self).root_key(p) == kx || old(self).root_key(p) == ky) { kw } else { old(self).root_key(p) }
                &&& forall|a: Seq<char>| #[trigger] final(self).rank_of(a)
                    == if kx != ky && old(self).rank_of(kx) == old(self).rank_of(ky) && a == kw {
                        rank_after_tie(old(self).rank_of(kw))
                    } else {
                        old(self).rank_of(a)
                    }
            },
            !bits_gt(UNION_WEIGHT_THRESHOLD_BITS, weight_bits) ==> {
                let key = spec_edge_key(old(self).root_key(x@), old(self).root_key(y@));
                &&& merged == !old(self).same(x@, y@)
                &&& forall|a: Seq<char>, b: Seq<char>| #[trigger] final(self).same(a, b) == (old(self).same(a, b)
                    || (old(self).same(a, x@) && old(self).same(b, y@))
                    || (old(self).same(a, y@) && old(self).same(b, x@)))
                &&& final(self).weight_of(key) == if !old(self).same(x@, y@) {
                    bits_max(weight_bits, old(self).weight_of(key))
                } else if bits_gt(weight_bits, old(self).weight_of(key)) {
                    weight_bits
                } else {
                    old(self).weight_of(key)
                }
                &&& forall|k: Seq<char>| k != key ==> #[trigger] final(self).weight_of(k) == old(self).weight_of(k)
            },
    {
        self.add_node(x);
        self.add_node(y);
        if f32_bits_gt(UNION_WEIGHT_THRESHOLD_BITS, weight_bits) {
            return false;
        }
        let ix = self.lookup(x).unwrap();
        let iy = self.lookup(y).unwrap();
        let ghost s0 = *self;
        let merged = self.merge_nodes(ix, iy, weight_bits);
        proof {
            assert(s0.root_key(x@) == s0.keys@[s0.roots@[ix as int]]@);
            assert(s0.root_key(y@) == s0.keys@[s0.roots@[iy as int]]@);
            Self::lemma_same_root_keys(s0, s0);
            assert forall|a: Seq<char>| #[trigger] self.contains(a) <==> s0.contains(a) by {
                reveal(UnionFind::wf);
                if s0.contains(a) {
                    assert(self.keys@[s0.idx(a)]@ == a);
                }
                if self.contains(a) {
                    assert(s0.keys@[self.idx(a)]@ == a);
                }
            }
        }
        merged
    }

    /// The heaviest weight recorded between the clusters of `x` and `y`; 0
    /// when they are in the same cluster or none was recorded.
    pub fn inter_cluster_weight(&mut self, x: &str, y: &str) -> (w: u32)
        requires
            old(self).wf(),
        ensures
            final(self).wf(),
            w == if old(self).same(x@, y@) { 0 } else {
                old(self).weight_of(spec_edge_key(old(self).root_key(x@), old(self).root_key(y@)))
            },
            forall|a: Seq<char>| #[trigger] final(self).contains(a) <==> old(self).contains(a) || a == x@ || a == y@,
            forall|a: Seq<char>| #[trigger] final(self).root_key(a) == old(self).root_key(a),
            forall|a: Seq<char>| #[trigger] final(self).rank_of(a) == old(self).rank_of(a),
    {
        let rx = self.find(x);
        let ry = self.find(y);
        if text::str_eq(rx.as_str(), ry.as_str()) {
            return 0;
        }
        let key = edge_weight_key(rx.as_str(), ry.as_str());
        self.get_weight(key.as_str())
    }

    /// Point every node directly at its root; returns each node's root index.
    fn compress_all(&mut self) -> (rt: Vec<usize>)
        requires
            old(self).wf(),
        ensures
            final(self).wf(),
            final(self).keys@ == old(self).keys@,
            final(self).roots@ == old(self).roots@,
            final(self).edge_weights@ == old(self).edge_weights@,
            final(self).rank@ == old(self).rank@,
            rt@.len() == old(self).keys@.len(),
            forall|i: int| 0 <= i < rt@.len() ==> #[trigger] rt@[i] as int == old(self).roots@[i],
    {
        let mut rt: Vec<usize> = Vec::new();
        let n = self.keys.len();
        let mut i: usize = 0;
        while i < n
            invariant
                self.wf(),
                n == self.keys@.len(),
                i <= n,
                self.keys@ == old(self).keys@,
                self.roots@ == old(self).roots@,
                self.edge_weights@ == old(self).edge_weights@,
                self.rank@ == old(self).rank@,
                rt@.len() == i,
                forall|j: int| 0 <= j < i ==> #[trigger] rt@[j] as int == old(self).roots@[j],
            decreases n - i,
        {
            let r = self.find_index(i);
            rt.push(r);
            i = i + 1;
        }
        rt
    }

    /// All clusters with more than one member, as (root key, member keys),
    /// roots and members in table order.
    #[verifier::spinoff_prover]
    pub fn all_clusters(&mut self) -> (r: Vec<(String, Vec<String>)>)
        requires
            old(self).wf(),
        ensures
            final(self).wf(),
            clusters_view(r@) == old(self).clusters(),
            forall|a: Seq<char>| #[trigger] final(self).contains(a) == old(self).contains(a),
            forall|a: Seq<char>| #[trigger] final(self).root_key(a) == old(self).root_key(a),
            forall|a: Seq<char>| #[trigger] final(self).rank_of(a) == old(self).rank_of(a),
    {
        let ghost s0 = *self;
        let rt = self.compress_all();
        proof {
            Self::lemma_same_tables(s0, *self);
            Self::lemma_same_ranks(s0, *self);
            reveal(UnionFind::wf);
            assert(s0.roots@.len() == s0.keys@.len());
        }
        let n = rt.len();
        let mut out: Vec<(String, Vec<String>)> = Vec::new();
        let mut r: usize = 0;
        while r < n
            invariant
                n == rt@.len(),
                n == self.keys@.len(),
                r <= n,
                forall|i: int| 0 <= i < n ==> #[trigger] rt@[i] as int == s0.roots@[i],
                s0.keys@ == self.keys@,
                s0.roots@.len() == n,
                clusters_view(out@) == clusters_upto(s0.nodes(), s0.roots@, r as int),
            decreases n - r,
        {
            if rt[r] == r {
                let mut members: Vec<String> = Vec::new();
                let mut i: usize = 0;
                while i < n
                    invariant
                        n == rt@.len(),
                        n == self.keys@.len(),
                        i <= n,
                        r < n,
                        forall|j: int| 0 <= j < n ==> #[trigger] rt@[j] as int == s0.roots@[j],
                        s0.keys@ == self.keys@,
                        text::strings_view(members@) == members_upto(s0.nodes(), s0.roots@, r as int, i as int),
                    decreases n - i,
                {
                    if rt[i] == r {
                        let k = self.keys[i].clone();
                        let ghost before = members@;
                        members.push(k);
                        proof {
                            assert(text::strings_view(members@) =~= text::strings_view(before).push(k@));
                        }
                    }
                    i = i + 1;
                }
                let ghost before = out@;
                if members.len() > 1 {
                    let root_key = self.keys[r].clone();
                    let ghost mv = members@;
                    out.push((root_key, members));
                    proof {
                        assert(clusters_view(out@) =~= clusters_view(before).push((root_key@, text::strings_view(mv))));
                    }
                }
            }
            r = r + 1;
        }
        out
    }

    proof fn lemma_members_upto(nodes: Seq<Seq<char>>, roots: Seq<int>, r: int, m: int)
        requires
            0 <= m <= nodes.len(),
            roots.len() == nodes.len(),
        ensures
            members_upto(nodes, roots, r, m).len() == count_root(roots, r, m),
            forall|k: int| 0 <= k < members_upto(nodes, roots, r, m).len() ==>
                0 <= #[trigger] member_index(roots, r, m, k) < m
                && roots[member_index(roots, r, m, k)] == r
                && members_upto(nodes, roots, r, m)[k] == nodes[member_index(roots, r, m, k)],
        decreases m,
    {
        if m > 0 {
            Self::lemma_members_upto(nodes, roots, r, m - 1);
            let p = members_upto(nodes, roots, r, m - 1);
            let q = members_upto(nodes, roots, r, m);
            assert forall|k: int| 0 <= k < q.len() implies
                0 <= #[trigger] member_index(roots, r, m, k) < m
                && roots[member_index(roots, r, m, k)] == r
                && q[k] == nodes[member_index(roots, r, m, k)] by {
                if k < p.len() {
                    assert(q[k] == p[k]);
                    assert(member_index(roots, r, m, k) == member_index(roots, r, m - 1, k));
                } else {
                    assert(member_index(roots, r, m, k) == m - 1);
                }
            }
        } else {
            assert(members_upto(nodes, roots, r, m) =~= Seq::<Seq<char>>::empty());
        }
    }

    proof fn lemma_clusters_upto(nodes: Seq<Seq<char>>, roots: Seq<int>, m: int)
        requires
            0 <= m <= nodes.len(),
            roots.len() == nodes.len(),
        ensures
            forall|k: int| 0 <= k < clusters_upto(nodes, roots, m).len() ==>
                exists|r: int| 0 <= r < m && roots[r] == r
                    && #[trigger] clusters_upto(nodes, roots, m)[k] == (nodes[r], members_upto(nodes, roots, r, nodes.len() as int))
                    && members_upto(nodes, roots, r, nodes.len() as int).len() > 1,
        decreases m,
    {
        if m > 0 {
            Self::lemma_clusters_upto(nodes, roots, m - 1);
            let p = clusters_upto(nodes, roots, m - 1);
            assert forall|k: int| 0 <= k < clusters_upto(nodes, roots, m).len() implies
                exists|r: int| 0 <= r < m && roots[r] == r
                    && #[trigger] clusters_upto(nodes, roots, m)[k] == (nodes[r], members_upto(nodes, roots, r, nodes.len() as int))
                    && members_upto(nodes, roots, r, nodes.len() as int).len() > 1 by {
                if k < p.len() {
                    assert(clusters_upto(nodes, roots, m)[k] == p[k]);
                }
            }
        }
    }

    /// Every reported cluster has more than one member, all tracked, and all
    /// with the reported root as their representative.
    pub proof fn lemma_clusters_sound(uf: &UnionFind, k: int)
        requires
            uf.wf(),
            0 <= k < uf.clusters().len(),
        ensures
            uf.clusters()[k].1.len() > 1,
            uf.root_key(uf.clusters()[k].0) == uf.clusters()[k].0,
            forall|m: Seq<char>| uf.clusters()[k].1.contains(m) ==> uf.contains(m) && uf.root_key(m) == uf.clusters()[k].0,
    {
        reveal(UnionFind::wf);
        let nodes = uf.nodes();
        let n = nodes.len() as int;
        Self::lemma_clusters_upto(nodes, uf.roots@, n);
        let r = choose|r: int| 0 <= r < n && uf.roots@[r] == r
            && #[trigger] clusters_upto(nodes, uf.roots@, n)[k] == (nodes[r], members_upto(nodes, uf.roots@, r, n))
            && members_upto(nodes, uf.roots@, r, n).len() > 1;
        Self::lemma_members_upto(nodes, uf.roots@, r, n);
        assert(uf.keys@[r]@ == nodes[r]);
        assert(uf.contains(nodes[r]));
        assert(uf.idx(nodes[r]) == r);
        let ms = members_upto(nodes, uf.roots@, r, n);
        assert forall|m: Seq<char>| ms.contains(m) implies uf.contains(m) && uf.root_key(m) == nodes[r] by {
            let kk = choose|kk: int| 0 <= kk < ms.len() && ms[kk] == m;
            let j = member_index(uf.roots@, r, n, kk);
            assert(ms[kk] == nodes[j]);
            assert(uf.keys@[j]@ == m);
            assert(uf.idx(m) == j);
        }
    }

    /// The members of the cluster of `node`, sorted; empty when the node is
    /// alone in its cluster. An untracked node is added first.
    #[verifier::spinoff_prover]
    pub fn cluster_members(&mut self, node: &str) -> (r: Vec<String>)
        requires
            old(self).wf(),
        ensures
            final(self).wf(),
            forall|a: Seq<char>| #[trigger] final(self).contains(a) <==> old(self).contains(a) || a == node@,
            forall|a: Seq<char>| #[trigger] final(self).root_key(a) == old(self).root_key(a),
            forall|a: Seq<char>| #[trigger] final(self).rank_of(a) == old(self).rank_of(a),
            final(self).contains(node@),
            final(self).class_of(node@).len() <= 1 ==> r@.len() == 0,
            final(self).class_of(node@).len() > 1 ==> text::sorted_strings(text::strings_view(r@))
                && text::strings_view(r@).to_multiset() == final(self).class_of(node@).to_multiset(),
    {
        let ghost s_old = *self;
        self.add_node(node);
        let i = self.lookup(node).unwrap();
        let ghost s0 = *self;
        let target = self.find_index(i);
        let rt = self.compress_all();
        proof {
            Self::lemma_same_tables(s0, *self);
            Self::lemma_same_ranks(s0, *self);
            reveal(UnionFind::wf);
            assert(s0.roots@.len() == s0.keys@.len());
            assert(self.idx(node@) == i);
        }
        let members = Self::collect_class(&self.keys, &rt, target, Ghost(s0.roots@));
        if members.len() <= 1 {
            return Vec::new();
        }
        text::sort_strings(&members)
    }

    /// The keys whose root (as listed in `rt`) is `target`, in table order.
    fn collect_class(keys: &Vec<String>, rt: &Vec<usize>, target: usize, Ghost(roots): Ghost<Seq<int>>) -> (members: Vec<String>)
        requires
            rt@.len() == keys@.len(),
            roots.len() == keys@.len(),
            forall|j: int| 0 <= j < rt@.len() ==> #[trigger] rt@[j] as int == roots[j],
        ensures
            text::strings_view(members@) == members_upto(text::strings_view(keys@), roots, target as int, keys@.len() as int),
    {
        let n = rt.len();
        let mut members: Vec<String> = Vec::new();
        let mut k: usize = 0;
        while k < n
            invariant
                n == rt@.len(),
                n == keys@.len(),
                k <= n,
                roots.len() == n,
                forall|j: int| 0 <= j < n ==> #[trigger] rt@[j] as int == roots[j],
                text::strings_view(members@) == members_upto(text::strings_view(keys@), roots, target as int, k as int),
            decreases n - k,
        {
            if rt[k] == target {
                let key = keys[k].clone();
                let ghost before = members@;
                members.push(key);
                proof {
                    assert(text::strings_view(members@) =~= text::strings_view(before).push(key@));
                }
            }
            k = k + 1;
        }
        members
    }

    /// Remove every node of the cluster whose representative is `root`, and
    /// every recorded weight whose edge key names `root` as an endpoint.
    #[verifier::spinoff_prover]
    pub fn remove_cluster(&mut self, root: &str)
        requires
            old(self).wf(),
        ensures
            final(self).wf(),
            forall|a: Seq<char>| #[trigger] final(self).contains(a) <==> old(self).contains(a) && old(self).root_key(a) != root@,
            forall|a: Seq<char>| final(self).contains(a) ==> #[trigger] final(self).root_key(a) == old(self).root_key(a),
            forall|a: Seq<char>| final(self).contains(a) ==> #[trigger] final(self).rank_of(a) == old(self).rank_of(a),
            forall|k: Seq<char>| #[trigger] final(self).weight_of(k) == if edge_touches(k, root@) { 0 } else { old(self).weight_of(k) },
    {
        let ghost s0 = *self;
        let rt = self.compress_all();
        proof {
            Self::lemma_same_tables(s0, *self);
            reveal(UnionFind::wf);
        }
        let rootc = text::chars_of(root);
        let n = self.keys.len();
        let mut map: Vec<usize> = Vec::new();
        let mut inv: Vec<usize> = Vec::new();
        let mut j: usize = 0;
        while j < n
            invariant
                self.wf(),
                n == self.keys@.len(),
                rt@.len() == n,
                s0.keys@ == self.keys@,
                s0.roots@ == self.roots@,
                forall|i: int| 0 <= i < n ==> #[trigger] rt@[i] as int == self.roots@[i],
                j <= n,
                map@.len() == j,
                inv@.len() <= j,
                forall|i: int| 0 <= i < j ==> (#[trigger] map@[i] < inv@.len() <==> self.keys@[self.roots@[i]]@ != rootc@),
                forall|i: int| 0 <= i < j ==> (#[trigger] map@[i] < inv@.len() || map@[i] == n),
                forall|i: int| 0 <= i < j && map@[i] < inv@.len() ==> inv@[#[trigger] map@[i] as int] == i,
                forall|t: int| 0 <= t < inv@.len() ==> (#[trigger] inv@[t]) < j && map@[inv@[t] as int] == t,
            decreases n - j,
        {
            proof {
                reveal(UnionFind::wf);
            }
            let r = rt[j];
            assert(r as int == self.roots@[j as int]);
            let rk = text::chars_of(self.keys[r].as_str());
            let ghost map0 = map@;
            let ghost inv0 = inv@;
            if text::chars_eq(&rk, &rootc) {
                map.push(n);
                proof {
                    assert forall|i: int| 0 <= i < j + 1 implies (#[trigger] map@[i] < inv@.len() <==> self.keys@[self.roots@[i]]@ != rootc@) by {
                        if i < j { assert(map@[i] == map0[i]); }
                    }
                    assert forall|i: int| 0 <= i < j + 1 && map@[i] < inv@.len() implies inv@[#[trigger] map@[i] as int] == i by {
                        if i < j { assert(map@[i] == map0[i]); }
                    }
                    assert forall|i: int| 0 <= i < j + 1 implies (#[trigger] map@[i] < inv@.len() || map@[i] == n) by {
                        if i < j { assert(map@[i] == map0[i]); }
                    }
                }
            } else {
                let l = inv.len();
                map.push(l);
                inv.push(j);
                proof {
                    assert forall|i: int| 0 <= i < j + 1 implies (#[trigger] map@[i] < inv@.len() <==> self.keys@[self.roots@[i]]@ != rootc@) by {
                        if i < j {
                            assert(map@[i] == map0[i]);
                            if map0[i] >= inv0.len() {
                                assert(map0[i] == n);
                            }
                        }
                    }
                    assert forall|i: int| 0 <= i < j + 1 && map@[i] < inv@.len() implies inv@[#[trigger] map@[i] as int] == i by {
                        if i < j {
                            assert(map@[i] == map0[i]);
                            if map0[i] >= inv0.len() {
                                assert(map0[i] == n);
                            }
                        }
                    }
                    assert forall|i: int| 0 <= i < j + 1 implies (#[trigger] map@[i] < inv@.len() || map@[i] == n) by {
                        if i < j { assert(map@[i] == map0[i]); }
                    }
                    assert forall|t: int| 0 <= t < inv@.len() implies (#[trigger] inv@[t]) < j + 1 && map@[inv@[t] as int] == t by {
                        if t < inv0.len() {
                            assert(inv@[t] == inv0[t]);
                        }
                    }
                }
            }
            j = j + 1;
        }
        let m = inv.len();
        let mut new_keys: Vec<String> = Vec::new();
        let mut new_parent: Vec<usize> = Vec::new();
        let mut new_rank: Vec<u32> = Vec::new();
        let mut t: usize = 0;
        while t < m
            invariant
                self.wf(),
                n == self.keys@.len(),
                rt@.len() == n,
                map@.len() == n,
                m == inv@.len(),
                inv@.len() <= n,
                forall|i: int| 0 <= i < n ==> #[trigger] rt@[i] as int == self.roots@[i],
                forall|i: int| 0 <= i < n ==> (#[trigger] map@[i] < m <==> self.keys@[self.roots@[i]]@ != rootc@),
                forall|i: int| 0 <= i < n && map@[i] < m ==> inv@[#[trigger] map@[i] as int] == i,
                forall|u: int| 0 <= u < m ==> (#[trigger] inv@[u]) < n && map@[inv@[u] as int] == u,
                t <= m,
                new_keys@.len() == t,
                new_parent@.len() == t,
                new_rank@.len() == t,
                forall|u: int| 0 <= u < t ==> #[trigger] new_keys@[u]@ == self.keys@[inv@[u] as int]@,
                forall|u: int| 0 <= u < t ==> #[trigger] new_parent@[u] == map@[rt@[inv@[u] as int] as int],
                forall|u: int| 0 <= u < t ==> #[trigger] new_rank@[u] == self.rank@[inv@[u] as int],
            decreases m - t,
        {
            proof {
                reveal(UnionFind::wf);
            }
            let old_i = inv[t];
            new_keys.push(self.keys[old_i].clone());
            new_parent.push(map[rt[old_i]]);
            new_rank.push(self.rank[old_i]);
            t = t + 1;
        }
        let new_weights = retain_weights(&self.edge_weights, &rootc);
        let ghost nw = new_weights@;
        let ghost ow = self.edge_weights@;
        assert forall|i: int| 0 <= i < nw.len() implies !edge_touches(#[trigger] nw[i].0@, rootc@)
            && exists|j: int| 0 <= j < ow.len() && ow[j].0@ == nw[i].0@ && ow[j].1 == nw[i].1 by {}
        let ghost new_roots: Seq<int> = Seq::new(m as nat, |u: int| new_parent@[u] as int);
        let ghost new_level: Seq<nat> = Seq::new(m as nat, |u: int| if new_roots[u] == u { 1nat } else { 0nat });
        let ghost s1 = *self;
        self.keys = new_keys;
        self.parent = new_parent;
        self.rank = new_rank;
        self.edge_weights = new_weights;
        self.roots = Ghost(new_roots);
        self.level = Ghost(new_level);
        proof {
            assert(self.edge_weights@ == nw);
            assert(s1.edge_weights@ == ow);
            Self::lemma_removal(s0, s1, *self, rootc@, map@, inv@, rt@);
        }
    }

    #[verifier::spinoff_prover]
    proof fn lemma_removal(s0: UnionFind, s1: UnionFind, s2: UnionFind, root: Seq<char>,
        map: Seq<usize>, inv: Seq<usize>, rt: Seq<usize>)
        requires
            s1.wf(),
            s0.keys@ == s1.keys@,
            s0.roots@ == s1.roots@,
            s0.edge_weights@ == s1.edge_weights@,
            s0.rank@ == s1.rank@,
            rt.len() == s1.keys@.len(),
            map.len() == s1.keys@.len(),
            inv.len() == s2.keys@.len(),
            inv.len() <= s1.keys@.len(),
            forall|i: int| 0 <= i < rt.len() ==> #[trigger] rt[i] as int == s1.roots@[i],
            forall|i: int| 0 <= i < map.len() ==> (#[trigger] map[i] < inv.len() <==> s1.keys@[s1.roots@[i]]@ != root),
            forall|i: int| 0 <= i < map.len() && map[i] < inv.len() ==> inv[#[trigger] map[i] as int] == i,
            forall|u: int| 0 <= u < inv.len() ==> (#[trigger] inv[u]) < map.len() && map[inv[u] as int] == u,
            s2.parent@.len() == inv.len(),
            s2.rank@.len() == inv.len(),
            forall|u: int| 0 <= u < inv.len() ==> #[trigger] s2.keys@[u]@ == s1.keys@[inv[u] as int]@,
            forall|u: int| 0 <= u < inv.len() ==> #[trigger] s2.parent@[u] == map[rt[inv[u] as int] as int],
            forall|u: int| 0 <= u < inv.len() ==> #[trigger] s2.rank@[u] == s1.rank@[inv[u] as int],
            s2.roots@ == Seq::new(inv.len() as nat, |u: int| s2.parent@[u] as int),
            s2.level@ == Seq::new(inv.len() as nat, |u: int| if s2.roots@[u] == u { 1nat } else { 0nat }),
            forall|i: int, j: int| 0 <= i < s2.edge_weights@.len() && 0 <= j < s2.edge_weights@.len() && i != j
                ==> s2.edge_weights@[i].0@ != s2.edge_weights@[j].0@,
            forall|i: int| 0 <= i < s2.edge_weights@.len() ==> !edge_touches(#[trigger] s2.edge_weights@[i].0@, root)
                && exists|j: int| 0 <= j < s1.edge_weights@.len() && s1.edge_weights@[j].0@ == s2.edge_weights@[i].0@
                    && s1.edge_weights@[j].1 == s2.edge_weights@[i].1,
            forall|j: int| 0 <= j < s1.edge_weights@.len() && !edge_touches(#[trigger] s1.edge_weights@[j].0@, root)
                ==> exists|i: int| 0 <= i < s2.edge_weights@.len() && s2.edge_weights@[i].0@ == s1.edge_weights@[j].0@
                    && s2.edge_weights@[i].1 == s1.edge_weights@[j].1,
        ensures
            s2.wf(),
            forall|a: Seq<char>| #[trigger] s2.contains(a) <==> s0.contains(a) && s0.root_key(a) != root,
            forall|a: Seq<char>| s2.contains(a) ==> #[trigger] s2.root_key(a) == s0.root_key(a),
            forall|a: Seq<char>| s2.contains(a) ==> #[trigger] s2.rank_of(a) == s0.rank_of(a),
            forall|k: Seq<char>| #[trigger] s2.weight_of(k) == if edge_touches(k, root) { 0 } else { s0.weight_of(k) },
    {
        reveal(UnionFind::wf);
        let n = s1.keys@.len() as int;
        let m = inv.len() as int;
        // The kept nodes' roots are kept, and are roots.
        assert forall|u: int| 0 <= u < m implies {
            let i = #[trigger] inv[u] as int;
            let r = s1.roots@[i];
            &&& map[r] < m
            &&& inv[map[r] as int] == r
            &&& s1.roots@[r] == r
        } by {
            let i = inv[u] as int;
            assert(map[i] < m);
            let r = s1.roots@[i];
            assert(s1.roots@[r] == r);
        }
        assert forall|u: int| 0 <= u < m implies (#[trigger] s2.parent@[u]) < m by {
            let i = inv[u] as int;
            assert(rt[i] as int == s1.roots@[i]);
        }
        assert forall|u: int| 0 <= u < m implies 0 <= #[trigger] s2.roots@[u] < m by {
            assert(s2.roots@[u] == s2.parent@[u] as int);
        }
        assert forall|u: int| 0 <= u < m implies s2.roots@[s2.roots@[u]] == #[trigger] s2.roots@[u] by {
            let i = inv[u] as int;
            let r = s1.roots@[i];
            assert(rt[i] as int == r);
            assert(s2.roots@[u] == map[r] as int);
            assert(inv[map[r] as int] as int == r);
            assert(rt[r] as int == s1.roots@[r]);
            assert(s2.roots@[map[r] as int] == map[rt[r] as int] as int);
        }
        assert forall|u: int| 0 <= u < m implies s2.roots@[s2.parent@[u] as int] == #[trigger] s2.roots@[u] by {
            assert(s2.roots@[u] == s2.parent@[u] as int);
        }
        assert forall|u: int| 0 <= u < m implies (s2.parent@[u] == u <==> #[trigger] s2.roots@[u] == u) by {
            assert(s2.roots@[u] == s2.parent@[u] as int);
        }
        assert forall|u: int| 0 <= u < m && s2.parent@[u] != u implies #[trigger] s2.level@[u] < s2.level@[s2.parent@[u] as int] by {
            assert(s2.roots@[u] == s2.parent@[u] as int);
            assert(s2.roots@[s2.roots@[u]] == s2.roots@[u]);
        }
        assert forall|u: int| 0 <= u < m && s2.roots@[u] != u implies #[trigger] s2.level@[u] < s2.level@[s2.roots@[u]] by {
            assert(s2.roots@[s2.roots@[u]] == s2.roots@[u]);
        }
        assert forall|u: int, w: int| 0 <= u < m && 0 <= w < m && u != w implies s2.keys@[u]@ != s2.keys@[w]@ by {
            assert(inv[u] != inv[w]);
        }
        assert(s2.wf());
        // Membership and representatives.
        assert forall|a: Seq<char>| #[trigger] s2.contains(a) <==> s0.contains(a) && s0.root_key(a) != root by {
            if s2.contains(a) {
                let u = s2.idx(a);
                let i = inv[u] as int;
                assert(s1.keys@[i]@ == a);
                assert(s0.contains(a));
                assert(s0.idx(a) == i);
            }
            if s0.contains(a) && s0.root_key(a) != root {
                let i = s0.idx(a);
                assert(map[i] < m);
                let u = map[i] as int;
                assert(s2.keys@[u]@ == a);
            }
        }
        assert forall|a: Seq<char>| s2.contains(a) implies #[trigger] s2.root_key(a) == s0.root_key(a) by {
            let u = s2.idx(a);
            let i = inv[u] as int;
            assert(s1.keys@[i]@ == a);
            assert(s0.idx(a) == i);
            let r = s1.roots@[i];
            assert(rt[i] as int == r);
            assert(s2.roots@[u] == map[r] as int);
            assert(inv[map[r] as int] as int == r);
        }
        assert forall|a: Seq<char>| s2.contains(a) implies #[trigger] s2.rank_of(a) == s0.rank_of(a) by {
            let u = s2.idx(a);
            let i = inv[u] as int;
            assert(s1.keys@[i]@ == a);
            assert(s0.idx(a) == i);
        }
        // Weights.
        assert forall|k: Seq<char>| #[trigger] s2.weight_of(k) == if edge_touches(k, root) { 0 } else { s0.weight_of(k) } by {
            let e1 = s1.edge_weights@;
            let e2 = s2.edge_weights@;
            if exists|i: int| 0 <= i < e2.len() && #[trigger] e2[i].0@ == k {
                let i = choose|i: int| 0 <= i < e2.len() && #[trigger] e2[i].0@ == k;
                assert(!edge_touches(e2[i].0@, root));
                let j = choose|j: int| 0 <= j < e1.len() && e1[j].0@ == e2[i].0@ && e1[j].1 == e2[i].1;
                assert(e1[j].0@ == k);
                let j2 = choose|j2: int| 0 <= j2 < e1.len() && #[trigger] e1[j2].0@ == k;
                if j2 != j {
                    assert(e1[j2].0@ != e1[j].0@);
                }
            } else {
                if !edge_touches(k, root) {
                    if exists|j: int| 0 <= j < e1.len() && #[trigger] e1[j].0@ == k {
                        let j = choose|j: int| 0 <= j < e1.len() && #[trigger] e1[j].0@ == k;
                        assert(!edge_touches(e1[j].0@, root));
                        let i = choose|i: int| 0 <= i < e2.len() && e2[i].0@ == e1[j].0@ && e2[i].1 == e1[j].1;
                        assert(e2[i].0@ == k);
                    }
                }
            }
        }
    }
}


/// Storage form of a `UnionFind`: each node with its parent, each node with
/// its rank, and each recorded edge weight (bits of a non-negative `f32`).
pub struct RedisUnionFindRepr {
    pub parent: Vec<(String, String)>,
    pub rank: Vec<(String, u32)>,
    pub edge_weights: Vec<(String, u32)>,
}

/// The (node, parent) entries as strings.
pub open spec fn pairs_view(v: Seq<(String, String)>) -> Seq<(Seq<char>, Seq<char>)> {
    Seq::new(v.len(), |i: int| (v[i].0@, v[i].1@))
}

/// The (edge key, weight) entries as strings.
pub open spec fn weights_view(v: Seq<(String, u32)>) -> Seq<(Seq<char>, u32)> {
    Seq::new(v.len(), |i: int| (v[i].0@, v[i].1))
}

/// No two entries name the same node.
pub open spec fn distinct_nodes(pv: Seq<(Seq<char>, Seq<char>)>) -> bool {
    forall|i: int, j: int| 0 <= i < pv.len() && 0 <= j < pv.len() && i != j ==> pv[i].0 != pv[j].0
}

/// No two entries name the same key.
pub open spec fn distinct_keys(wv: Seq<(Seq<char>, u32)>) -> bool {
    forall|i: int, j: int| 0 <= i < wv.len() && 0 <= j < wv.len() && i != j ==> wv[i].0 != wv[j].0
}

/// Some entry names `a`.
pub open spec fn repr_contains(pv: Seq<(Seq<char>, Seq<char>)>, a: Seq<char>) -> bool {
    exists|i: int| 0 <= i < pv.len() && #[trigger] pv[i].0 == a
}

/// The entry that names `a` (meaningful when one does).
pub open spec fn repr_index(pv: Seq<(Seq<char>, Seq<char>)>, a: Seq<char>) -> int {
    choose|i: int| 0 <= i < pv.len() && #[trigger] pv[i].0 == a
}

/// Follow parent links from entry `i` for at most `fuel` steps: the entry of
/// the self-parented node reached, if one is.
pub open spec fn repr_walk(pv: Seq<(Seq<char>, Seq<char>)>, i: int, fuel: nat) -> Option<int>
    decreases fuel,
{
    if pv[i].1 == pv[i].0 {
        Some(i)
    } else if fuel == 0 {
        None
    } else {
        repr_walk(pv, repr_index(pv, pv[i].1), (fuel - 1) as nat)
    }
}

/// The entries describe a forest: distinct nodes, every parent itself a
/// node, every node reaching a self-parented node in at most as many steps
/// as there are nodes; and the edge keys are distinct.
pub open spec fn repr_ok(pv: Seq<(Seq<char>, Seq<char>)>, wv: Seq<(Seq<char>, u32)>) -> bool {
    &&& distinct_nodes(pv)
    &&& forall|i: int| 0 <= i < pv.len() ==> repr_contains(pv, #[trigger] pv[i].1)
    &&& forall|i: int| 0 <= i < pv.len() ==> #[trigger] repr_walk(pv, i, pv.len()) is Some
    &&& distinct_keys(wv)
}

/// How many parent links the walk from entry `i` follows (within `fuel`).
pub open spec fn repr_steps(pv: Seq<(Seq<char>, Seq<char>)>, i: int, fuel: nat) -> nat
    decreases fuel,
{
    if pv[i].1 == pv[i].0 {
        0
    } else if fuel == 0 {
        0
    } else {
        1 + repr_steps(pv, repr_index(pv, pv[i].1), (fuel - 1) as nat)
    }
}

/// A walk that ends reaches a self-parented entry within its fuel, and more
/// fuel changes neither where it ends nor how many links it follows.
proof fn lemma_walk_more_fuel(pv: Seq<(Seq<char>, Seq<char>)>, i: int, f: nat, f2: nat)
    requires
        0 <= i < pv.len(),
        forall|t: int| 0 <= t < pv.len() ==> 0 <= #[trigger] repr_index(pv, pv[t].1) < pv.len(),
        repr_walk(pv, i, f) is Some,
        f <= f2,
    ensures
        repr_walk(pv, i, f2) == repr_walk(pv, i, f),
        repr_steps(pv, i, f2) == repr_steps(pv, i, f),
        repr_steps(pv, i, f) <= f,
        0 <= repr_walk(pv, i, f)->0 < pv.len(),
        pv[repr_walk(pv, i, f)->0].1 == pv[repr_walk(pv, i, f)->0].0,
    decreases f,
{
    if pv[i].1 != pv[i].0 {
        lemma_walk_more_fuel(pv, repr_index(pv, pv[i].1), (f - 1) as nat, (f2 - 1) as nat);
    }
}

/// The root reached from node `a`.
pub open spec fn repr_root_key(pv: Seq<(Seq<char>, Seq<char>)>, a: Seq<char>) -> Seq<char> {
    pv[repr_walk(pv, repr_index(pv, a), pv.len())->0].0
}

/// The weight listed for edge key `k` (0 when none).
pub open spec fn repr_weight(wv: Seq<(Seq<char>, u32)>, k: Seq<char>) -> u32 {
    if exists|i: int| 0 <= i < wv.len() && #[trigger] wv[i].0 == k {
        wv[choose|i: int| 0 <= i < wv.len() && #[trigger] wv[i].0 == k].1
    } else {
        0
    }
}

/// The rank listed for node `a` (0 when none).
pub open spec fn repr_rank(rv: Seq<(Seq<char>, u32)>, a: Seq<char>) -> u32 {
    repr_weight(rv, a)
}

/// The rank entries `rv` give every node of `uf` its rank.
pub open spec fn repr_ranks(uf: UnionFind, rv: Seq<(Seq<char>, u32)>) -> bool {
    &&& distinct_keys(rv)
    &&& forall|a: Seq<char>| #[trigger] uf.contains(a) ==> uf.rank_of(a) == repr_rank(rv, a)
}

/// The storage form (`pv`, `wv`) describes `uf`: it is a forest over the
/// same nodes, with the same roots and the same recorded weights.
pub open spec fn repr_describes(uf: UnionFind, pv: Seq<(Seq<char>, Seq<char>)>, wv: Seq<(Seq<char>, u32)>) -> bool {
    &&& repr_ok(pv, wv)
    &&& forall|a: Seq<char>| #[trigger] uf.contains(a) <==> repr_contains(pv, a)
    &&& forall|a: Seq<char>| repr_contains(pv, a) ==> #[trigger] uf.root_key(a) == repr_root_key(pv, a)
    &&& forall|k: Seq<char>| #[trigger] uf.weight_of(k) == repr_weight(wv, k)
}

/// The names are pairwise different.
fn all_distinct(names: &Vec<String>) -> (r: bool)
    ensures
        r == forall|i: int, j: int| 0 <= i < names@.len() && 0 <= j < names@.len() && i != j
            ==> names@[i]@ != names@[j]@,
{
    let n = names.len();
    let mut i: usize = 0;
    while i < n
        invariant
            n == names@.len(),
            i <= n,
            forall|a: int, b: int| 0 <= a < i && 0 <= b < n && a != b ==> names@[a]@ != names@[b]@,
        decreases n - i,
    {
        let mut j: usize = 0;
        while j < n
            invariant
                n == names@.len(),
                i < n,
                j <= n,
                forall|a: int, b: int| 0 <= a < i && 0 <= b < n && a != b ==> names@[a]@ != names@[b]@,
                forall|b: int| 0 <= b < j && i != b ==> names@[i as int]@ != names@[b]@,
            decreases n - j,
        {
            if i != j && text::str_eq(names[i].as_str(), names[j].as_str()) {
                return false;
            }
            j = j + 1;
        }
        i = i + 1;
    }
    true
}

/// The position of `a` among the names.
fn position(names: &Vec<String>, a: &str) -> (r: Option<usize>)
    ensures
        match r {
            Some(j) => j < names@.len() && names@[j as int]@ == a@,
            None => forall|j: int| 0 <= j < names@.len() ==> names@[j]@ != a@,
        },
{
    let mut j: usize = 0;
    while j < names.len()
        invariant
            j <= names@.len(),
            forall|b: int| 0 <= b < j ==> names@[b]@ != a@,
        decreases names.len() - j,
    {
        if text::str_eq(names[j].as_str(), a) {
            return Some(j);
        }
        j = j + 1;
    }
    None
}

/// The rank listed for `a` (0 when none).
fn listed_rank(ranks: &Vec<(String, u32)>, a: &str) -> (r: u32)
    ensures
        (exists|j: int| 0 <= j < ranks@.len() && ranks@[j].0@ == a@ && ranks@[j].1 == r)
            || (r == 0 && forall|j: int| 0 <= j < ranks@.len() ==> ranks@[j].0@ != a@),
{
    let mut j: usize = 0;
    while j < ranks.len()
        invariant
            j <= ranks@.len(),
            forall|b: int| 0 <= b < j ==> ranks@[b].0@ != a@,
        decreases ranks.len() - j,
    {
        if text::str_eq(ranks[j].0.as_str(), a) {
            return ranks[j].1;
        }
        j = j + 1;
    }
    0
}

/// The table indices below `n` whose level is at least `l`.
spec fn at_or_above(level: Seq<nat>, n: int, l: nat) -> Set<int> {
    Set::new(|j: int| 0 <= j < n && level[j] >= l)
}

impl UnionFind {
    /// Entries that list every node with its parent are walked from node
    /// `t` to its root: each step climbs to a higher level, so fewer nodes
    /// lie at or above it, and the walk ends within that many steps.
    proof fn lemma_walk_reaches_root(u: UnionFind, pv: Seq<(Seq<char>, Seq<char>)>, t: int, fuel: nat)
        requires
            u.wf(),
            0 <= t < u.keys@.len(),
            pv.len() == u.keys@.len(),
            forall|i: int| 0 <= i < pv.len() ==> (#[trigger] pv[i]).0 == u.keys@[i]@
                && pv[i].1 == u.keys@[u.parent@[i] as int]@,
            forall|i: int| 0 <= i < pv.len() ==> #[trigger] repr_index(pv, pv[i].1) == u.parent@[i] as int,
            fuel + 1 >= at_or_above(u.level@, u.keys@.len() as int, u.level@[t]).len(),
        ensures
            repr_walk(pv, t, fuel) == Some(u.roots@[t]),
        decreases fuel,
    {
        reveal(UnionFind::wf);
        let n = u.keys@.len() as int;
        let p = u.parent@[t] as int;
        if p != t {
            assert(pv[t].1 != pv[t].0) by {
                assert(u.keys@[p]@ != u.keys@[t]@);
            }
            let st = at_or_above(u.level@, n, u.level@[t]);
            let sp = at_or_above(u.level@, n, u.level@[p]);
            vstd::set_lib::lemma_int_range(0, n);
            vstd::set_lib::lemma_len_subset(st, vstd::set_lib::set_int_range(0, n));
            assert(sp.subset_of(st.remove(t)));
            vstd::set_lib::lemma_len_subset(sp, st.remove(t));
            assert(st.remove(t).contains(p));
            assert(st.remove(t).remove(p).len() + 1 == st.remove(t).len());
            assert(st.remove(t).len() + 1 == st.len());
            Self::lemma_walk_reaches_root(u, pv, p, (fuel - 1) as nat);
        }
    }


    /// Entries that list every node with its parent and its rank, and every
    /// recorded weight, describe the union-find.
    #[verifier::spinoff_prover]
    proof fn lemma_written_form(
        u: UnionFind,
        pv: Seq<(Seq<char>, Seq<char>)>,
        wv: Seq<(Seq<char>, u32)>,
        rv: Seq<(Seq<char>, u32)>,
    )
        requires
            u.wf(),
            pv.len() == u.keys@.len(),
            rv.len() == u.keys@.len(),
            wv.len() == u.edge_weights@.len(),
            forall|t: int| 0 <= t < pv.len() ==> (#[trigger] pv[t]).0 == u.keys@[t]@
                && pv[t].1 == u.keys@[u.parent@[t] as int]@,
            forall|t: int| 0 <= t < rv.len() ==> (#[trigger] rv[t]).0 == u.keys@[t]@ && rv[t].1 == u.rank@[t],
            forall|t: int| 0 <= t < wv.len() ==> (#[trigger] wv[t]).0 == u.edge_weights@[t].0@
                && wv[t].1 == u.edge_weights@[t].1,
        ensures
            repr_describes(u, pv, wv),
            repr_ranks(u, rv),
            forall|t: int| 0 <= t < pv.len() ==> u.same(#[trigger] pv[t].0, pv[t].1),
    {
        reveal(UnionFind::wf);
        let n = u.keys@.len();
        assert(distinct_keys(rv)) by {
            assert forall|a: int, b: int| 0 <= a < rv.len() && 0 <= b < rv.len() && a != b implies rv[a].0 != rv[b].0 by {
                assert(u.keys@[a]@ != u.keys@[b]@);
            }
        }
        assert forall|a: Seq<char>| #[trigger] u.contains(a) implies u.rank_of(a) == repr_rank(rv, a) by {
            let t = u.idx(a);
            Self::lemma_rank_of_index(u, t);
            assert(rv[t].0 == a);
            let w = choose|w: int| 0 <= w < rv.len() && #[trigger] rv[w].0 == a;
            if w != t {
                assert(rv[w].0 != rv[t].0);
            }
        }
        assert forall|t: int| 0 <= t < n implies #[trigger] repr_index(pv, u.keys@[t]@) == t by {
            assert(pv[t].0 == u.keys@[t]@);
            let w = repr_index(pv, u.keys@[t]@);
            assert(pv[w].0 == u.keys@[t]@);
        }
        assert forall|t: int| 0 <= t < n implies #[trigger] repr_index(pv, pv[t].1) == u.parent@[t] as int by {
            assert(pv[t].1 == u.keys@[u.parent@[t] as int]@);
        }
        assert forall|t: int| 0 <= t < n implies #[trigger] repr_walk(pv, t, n as nat) == Some(u.roots@[t]) by {
            vstd::set_lib::lemma_int_range(0, n as int);
            vstd::set_lib::lemma_len_subset(
                at_or_above(u.level@, n as int, u.level@[t]),
                vstd::set_lib::set_int_range(0, n as int),
            );
            Self::lemma_walk_reaches_root(u, pv, t, n as nat);
        }
        assert forall|i: int| 0 <= i < pv.len() implies repr_contains(pv, #[trigger] pv[i].1) by {
            assert(pv[u.parent@[i] as int].0 == pv[i].1);
        }
        assert forall|i: int| 0 <= i < pv.len() implies #[trigger] repr_walk(pv, i, pv.len()) is Some by {
            assert(repr_walk(pv, i, n as nat) == Some(u.roots@[i]));
        }
        assert forall|a: Seq<char>| #[trigger] repr_contains(pv, a) <==> u.contains(a) by {
            if repr_contains(pv, a) {
                let t = choose|t: int| 0 <= t < pv.len() && #[trigger] pv[t].0 == a;
                assert(u.keys@[t]@ == a);
            }
            if u.contains(a) {
                let t = u.idx(a);
                assert(pv[t].0 == a);
            }
        }
        assert forall|a: Seq<char>| u.contains(a) implies #[trigger] repr_root_key(pv, a) == u.root_key(a) by {
            let t = u.idx(a);
            assert(repr_index(pv, u.keys@[t]@) == t);
            assert(repr_walk(pv, t, n as nat) == Some(u.roots@[t]));
        }
        assert forall|i: int| 0 <= i < pv.len() implies u.same(#[trigger] pv[i].0, pv[i].1) by {
            let p = u.parent@[i] as int;
            Self::lemma_rank_of_index(u, i);
            Self::lemma_rank_of_index(u, p);
        }
        assert forall|k: Seq<char>| #[trigger] repr_weight(wv, k) == u.weight_of(k) by {
            let ew = u.edge_weights@;
            if exists|i: int| 0 <= i < wv.len() && #[trigger] wv[i].0 == k {
                let i = choose|i: int| 0 <= i < wv.len() && #[trigger] wv[i].0 == k;
                assert(ew[i].0@ == k);
                let i2 = choose|i2: int| 0 <= i2 < ew.len() && #[trigger] ew[i2].0@ == k;
                if i2 != i {
                    assert(ew[i2].0@ != ew[i].0@);
                }
            } else {
                if exists|i: int| 0 <= i < ew.len() && #[trigger] ew[i].0@ == k {
                    let i = choose|i: int| 0 <= i < ew.len() && #[trigger] ew[i].0@ == k;
                    assert(wv[i].0 == k);
                }
            }
        }
    }

    /// The storage form: every node paired with its parent and with its
    /// rank, and every recorded edge weight.
    #[verifier::spinoff_prover]
    pub fn to_redis_repr(&self) -> (r: RedisUnionFindRepr)
        requires
            self.wf(),
        ensures
            repr_describes(*self, pairs_view(r.parent@), weights_view(r.edge_weights@)),
            repr_ranks(*self, weights_view(r.rank@)),
            forall|i: int| 0 <= i < r.parent@.len() ==> self.same(#[trigger] r.parent@[i].0@, r.parent@[i].1@),
            r.rank@.len() == r.parent@.len(),
            forall|i: int| 0 <= i < r.rank@.len() ==> #[trigger] r.rank@[i].0@ == r.parent@[i].0@,
    {
        proof {
            reveal(UnionFind::wf);
        }
        let n = self.keys.len();
        let mut parent: Vec<(String, String)> = Vec::new();
        let mut rank: Vec<(String, u32)> = Vec::new();
        let mut i: usize = 0;
        while i < n
            invariant
                self.wf(),
                n == self.keys@.len(),
                n == self.rank@.len(),
                n == self.roots@.len(),
                n == self.parent@.len(),
                forall|t: int| 0 <= t < n ==> (#[trigger] self.parent@[t]) < n,
                i <= n,
                parent@.len() == i,
                rank@.len() == i,
                forall|t: int| 0 <= t < i ==> (#[trigger] parent@[t]).0@ == self.keys@[t]@
                    && parent@[t].1@ == self.keys@[self.parent@[t] as int]@,
                forall|t: int| 0 <= t < i ==> (#[trigger] rank@[t]).0@ == self.keys@[t]@
                    && rank@[t].1 == self.rank@[t],
            decreases n - i,
        {
            let p = self.parent[i];
            parent.push((self.keys[i].clone(), self.keys[p].clone()));
            rank.push((self.keys[i].clone(), self.rank[i]));
            i = i + 1;
        }
        let mut weights: Vec<(String, u32)> = Vec::new();
        let mut j: usize = 0;
        while j < self.edge_weights.len()
            invariant
                j <= self.edge_weights@.len(),
                weights@.len() == j,
                forall|t: int| 0 <= t < j ==> (#[trigger] weights@[t]).0@ == self.edge_weights@[t].0@
                    && weights@[t].1 == self.edge_weights@[t].1,
            decreases self.edge_weights.len() - j,
        {
            weights.push((self.edge_weights[j].0.clone(), self.edge_weights[j].1));
            j = j + 1;
        }
        proof {
            let pv = pairs_view(parent@);
            Self::lemma_written_form(*self, pv, weights_view(weights@), weights_view(rank@));
            assert forall|i: int| 0 <= i < parent@.len() implies self.same(#[trigger] parent@[i].0@, parent@[i].1@) by {
                assert(pv[i].0 == parent@[i].0@);
            }
        }
        RedisUnionFindRepr { parent, rank, edge_weights: weights }
    }

    /// Rebuild from the storage form, keeping its parent links; `None` when
    /// the entries do not describe a forest (`repr_ok`) or list a node's
    /// rank twice.
    #[verifier::spinoff_prover]
    fn rebuild(repr: &RedisUnionFindRepr) -> (r: Option<UnionFind>)
        ensures
            r is Some <==> repr_ok(pairs_view(repr.parent@), weights_view(repr.edge_weights@))
                && distinct_keys(weights_view(repr.rank@)),
            r matches Some(uf) ==> uf.wf() && repr_describes(uf, pairs_view(repr.parent@), weights_view(repr.edge_weights@))
                && repr_ranks(uf, weights_view(repr.rank@)),
    {
        let ghost pv = pairs_view(repr.parent@);
        let ghost wv = weights_view(repr.edge_weights@);
        let n = repr.parent.len();
        let mut names: Vec<String> = Vec::new();
        let mut i: usize = 0;
        while i < n
            invariant
                n == repr.parent@.len(),
                pv == pairs_view(repr.parent@),
                i <= n,
                names@.len() == i,
                forall|t: int| 0 <= t < i ==> #[trigger] names@[t]@ == pv[t].0,
            decreases n - i,
        {
            names.push(repr.parent[i].0.clone());
            i = i + 1;
        }
        if !all_distinct(&names) {
            proof {
                let (a, b) = choose|a: int, b: int| 0 <= a < n && 0 <= b < n && a != b && names@[a]@ == names@[b]@;
                assert(pv[a].0 == pv[b].0);
            }
            return None;
        }
        assert(distinct_nodes(pv)) by {
            assert forall|a: int, b: int| 0 <= a < pv.len() && 0 <= b < pv.len() && a != b implies pv[a].0 != pv[b].0 by {
                assert(names@[a]@ != names@[b]@);
            }
        }
        // Each node's parent, as an index.
        let mut pidx: Vec<usize> = Vec::new();
        let mut i: usize = 0;
        while i < n
            invariant
                n == repr.parent@.len(),
                n == names@.len(),
                pv == pairs_view(repr.parent@),
                distinct_nodes(pv),
                forall|t: int| 0 <= t < n ==> #[trigger] names@[t]@ == pv[t].0,
                i <= n,
                pidx@.len() == i,
                forall|t: int| 0 <= t < i ==> (#[trigger] pidx@[t]) < n && pv[pidx@[t] as int].0 == pv[t].1,
            decreases n - i,
        {
            match position(&names, repr.parent[i].1.as_str()) {
                Some(j) => {
                    pidx.push(j);
                },
                None => {
                    proof {
                        assert(!repr_contains(pv, pv[i as int].1)) by {
                            if repr_contains(pv, pv[i as int].1) {
                                let t = choose|t: int| 0 <= t < pv.len() && #[trigger] pv[t].0 == pv[i as int].1;
                                assert(names@[t]@ == pv[t].0);
                            }
                        }
                    }
                    return None;
                },
            }
            i = i + 1;
        }
        proof {
            assert forall|t: int| 0 <= t < n implies #[trigger] repr_index(pv, pv[t].1) == pidx@[t] as int by {
                let u = repr_index(pv, pv[t].1);
                assert(pv[pidx@[t] as int].0 == pv[t].1);
                assert(pv[u].0 == pv[t].1);
            }
        }
        // Each node's root, by walking at most `n` steps.
        let mut roots_v: Vec<usize> = Vec::new();
        let mut i: usize = 0;
        while i < n
            invariant
                n == repr.parent@.len(),
                pv == pairs_view(repr.parent@),
                distinct_nodes(pv),
                pidx@.len() == n,
                forall|t: int| 0 <= t < n ==> (#[trigger] pidx@[t]) < n && pv[pidx@[t] as int].0 == pv[t].1,
                forall|t: int| 0 <= t < n ==> #[trigger] repr_index(pv, pv[t].1) == pidx@[t] as int,
                i <= n,
                roots_v@.len() == i,
                forall|t: int| 0 <= t < i ==> (#[trigger] roots_v@[t]) < n
                    && repr_walk(pv, t, n as nat) == Some(roots_v@[t] as int)
                    && pidx@[roots_v@[t] as int] == roots_v@[t],
            decreases n - i,
        {
            let mut cur = i;
            let mut f = n;
            while pidx[cur] != cur
                invariant
                    n == repr.parent@.len(),
                    pv == pairs_view(repr.parent@),
                    distinct_nodes(pv),
                    pidx@.len() == n,
                    forall|t: int| 0 <= t < n ==> (#[trigger] pidx@[t]) < n && pv[pidx@[t] as int].0 == pv[t].1,
                    forall|t: int| 0 <= t < n ==> #[trigger] repr_index(pv, pv[t].1) == pidx@[t] as int,
                    i < n,
                    cur < n,
                    f <= n,
                    repr_walk(pv, i as int, n as nat) == repr_walk(pv, cur as int, f as nat),
                decreases f,
            {
                assert(pv[cur as int].1 != pv[cur as int].0) by {
                    assert(pv[pidx@[cur as int] as int].0 == pv[cur as int].1);
                }
                if f == 0 {
                    assert(!repr_ok(pv, wv)) by {
                        assert(repr_walk(pv, i as int, n as nat) is None);
                    }
                    return None;
                }
                cur = pidx[cur];
                f = f - 1;
            }
            assert(pv[cur as int].1 == pv[cur as int].0) by {
                assert(pv[pidx@[cur as int] as int].0 == pv[cur as int].1);
            }
            roots_v.push(cur);
            i = i + 1;
        }
        // Edge keys.
        let m = repr.edge_weights.len();
        let mut enames: Vec<String> = Vec::new();
        let mut ew: Vec<(String, u32)> = Vec::new();
        let mut j: usize = 0;
        while j < m
            invariant
                m == repr.edge_weights@.len(),
                wv == weights_view(repr.edge_weights@),
                j <= m,
                enames@.len() == j,
                ew@.len() == j,
                forall|t: int| 0 <= t < j ==> #[trigger] enames@[t]@ == wv[t].0,
                forall|t: int| 0 <= t < j ==> (#[trigger] ew@[t]).0@ == wv[t].0 && ew@[t].1 == wv[t].1,
            decreases m - j,
        {
            enames.push(repr.edge_weights[j].0.clone());
            ew.push((repr.edge_weights[j].0.clone(), repr.edge_weights[j].1));
            j = j + 1;
        }
        if !all_distinct(&enames) {
            proof {
                let (a, b) = choose|a: int, b: int| 0 <= a < m && 0 <= b < m && a != b && enames@[a]@ == enames@[b]@;
                assert(wv[a].0 == wv[b].0);
            }
            return None;
        }
        // Rank entries.
        let ghost rv = weights_view(repr.rank@);
        let q = repr.rank.len();
        let mut rnames: Vec<String> = Vec::new();
        let mut j: usize = 0;
        while j < q
            invariant
                q == repr.rank@.len(),
                rv == weights_view(repr.rank@),
                j <= q,
                rnames@.len() == j,
                forall|t: int| 0 <= t < j ==> #[trigger] rnames@[t]@ == rv[t].0,
            decreases q - j,
        {
            rnames.push(repr.rank[j].0.clone());
            j = j + 1;
        }
        if !all_distinct(&rnames) {
            proof {
                let (a, b) = choose|a: int, b: int| 0 <= a < q && 0 <= b < q && a != b && rnames@[a]@ == rnames@[b]@;
                assert(rv[a].0 == rv[b].0);
            }
            return None;
        }
        assert(distinct_keys(rv)) by {
            assert forall|a: int, b: int| 0 <= a < rv.len() && 0 <= b < rv.len() && a != b implies rv[a].0 != rv[b].0 by {
                assert(rnames@[a]@ != rnames@[b]@);
            }
        }
        let mut rank: Vec<u32> = Vec::new();
        let mut i: usize = 0;
        while i < n
            invariant
                n == names@.len(),
                rv == weights_view(repr.rank@),
                distinct_keys(rv),
                i <= n,
                rank@.len() == i,
                forall|t: int| 0 <= t < i ==> #[trigger] rank@[t] == repr_rank(rv, names@[t]@),
            decreases n - i,
        {
            let v = listed_rank(&repr.rank, names[i].as_str());
            proof {
                let a = names@[i as int]@;
                if exists|j: int| 0 <= j < repr.rank@.len() && repr.rank@[j].0@ == a && repr.rank@[j].1 == v {
                    let j = choose|j: int| 0 <= j < repr.rank@.len() && repr.rank@[j].0@ == a && repr.rank@[j].1 == v;
                    assert(rv[j].0 == a);
                    let u = choose|u: int| 0 <= u < rv.len() && #[trigger] rv[u].0 == a;
                    if u != j {
                        assert(rv[u].0 != rv[j].0);
                    }
                } else {
                    assert(forall|j: int| 0 <= j < rv.len() ==> #[trigger] rv[j].0 != a) by {
                        assert forall|j: int| 0 <= j < rv.len() implies #[trigger] rv[j].0 != a by {
                            assert(repr.rank@[j].0@ != a);
                        }
                    }
                }
            }
            rank.push(v);
            i = i + 1;
        }
        let ghost roots = Seq::new(n as nat, |t: int| roots_v@[t] as int);
        let ghost level = Seq::new(n as nat, |t: int| (n - repr_steps(pv, t, n as nat)) as nat);
        proof {
            assert forall|t: int| 0 <= t < n implies
                #[trigger] repr_steps(pv, t, n as nat) <= n
                && (pidx@[t] as int != t ==> roots[pidx@[t] as int] == roots[t]
                    && repr_steps(pv, t, n as nat) == 1 + repr_steps(pv, pidx@[t] as int, n as nat))
                && (pidx@[t] as int == t <==> roots[t] == t)
                && (roots[t] != t ==> repr_steps(pv, t, n as nat) >= 1)
                && repr_steps(pv, roots[t], n as nat) == 0 by {
                let r = roots_v@[t] as int;
                lemma_walk_more_fuel(pv, t, n as nat, n as nat);
                let p = pidx@[t] as int;
                assert(pv[p].0 == pv[t].1);
                if p != t {
                    assert(pv[t].1 != pv[t].0) by {
                        assert(pv[p].0 != pv[t].0);
                    }
                    assert(repr_walk(pv, t, n as nat) == repr_walk(pv, p, (n - 1) as nat));
                    lemma_walk_more_fuel(pv, p, (n - 1) as nat, n as nat);
                    assert(roots_v@[p] as int == r);
                    assert(r != t);
                } else {
                    assert(pv[t].1 == pv[t].0);
                }
                assert(pv[r].1 == pv[r].0);
            }
        }
        let uf = UnionFind {
            keys: names,
            parent: pidx,
            rank,
            edge_weights: ew,
            roots: Ghost(roots),
            level: Ghost(level),
        };
        proof {
            assert(distinct_keys(wv)) by {
                assert forall|a: int, b: int| 0 <= a < wv.len() && 0 <= b < wv.len() && a != b implies wv[a].0 != wv[b].0 by {
                    assert(enames@[a]@ != enames@[b]@);
                }
            }
            assert forall|t: int| 0 <= t < pv.len() implies repr_contains(pv, #[trigger] pv[t].1) by {
                assert(pv[pidx@[t] as int].0 == pv[t].1);
            }
            assert forall|t: int| 0 <= t < pv.len() implies #[trigger] repr_walk(pv, t, pv.len()) is Some by {
                assert(repr_walk(pv, t, n as nat) == Some(roots_v@[t] as int));
            }
            assert forall|t: int| 0 <= t < n implies #[trigger] roots[roots[t]] == roots[t] by {
                let r = roots[t];
                assert(pidx@[r] as int == r);
                assert(pv[r].1 == pv[r].0) by {
                    assert(pv[pidx@[r] as int].0 == pv[r].1);
                }
                assert(repr_walk(pv, r, n as nat) == Some(r));
            }
            assert(uf.wf()) by {
                reveal(UnionFind::wf);
                assert forall|a: int, b: int| 0 <= a < n && 0 <= b < n && a != b implies uf.keys@[a]@ != uf.keys@[b]@ by {
                    assert(pv[a].0 != pv[b].0);
                }
                assert forall|a: int, b: int| 0 <= a < uf.edge_weights@.len() && 0 <= b < uf.edge_weights@.len() && a != b
                    implies uf.edge_weights@[a].0@ != uf.edge_weights@[b].0@ by {
                    assert(wv[a].0 != wv[b].0);
                }
                assert forall|t: int| 0 <= t < n && uf.roots@[t] != t implies #[trigger] uf.level@[t] < uf.level@[uf.roots@[t]] by {
                    assert(repr_steps(pv, t, n as nat) <= n);
                    assert(repr_steps(pv, roots[t], n as nat) == 0);
                }
                assert forall|t: int| 0 <= t < n && uf.parent@[t] != t implies #[trigger] uf.level@[t] < uf.level@[uf.parent@[t] as int] by {
                    assert(repr_steps(pv, t, n as nat) <= n);
                    assert(repr_steps(pv, pidx@[t] as int, n as nat) <= n);
                }
                assert forall|t: int| 0 <= t < n implies uf.roots@[uf.parent@[t] as int] == #[trigger] uf.roots@[t] by {
                    assert(repr_steps(pv, t, n as nat) <= n);
                }
                assert forall|t: int| 0 <= t < n implies (uf.parent@[t] == t <==> #[trigger] uf.roots@[t] == t) by {
                    assert(repr_steps(pv, t, n as nat) <= n);
                }
            }
            assert forall|t: int| 0 <= t < n implies #[trigger] repr_index(pv, pv[t].0) == t by {
                let u = repr_index(pv, pv[t].0);
                assert(pv[u].0 == pv[t].0);
            }
            assert forall|a: Seq<char>| #[trigger] uf.contains(a) <==> repr_contains(pv, a) by {
                if uf.contains(a) {
                    let t = uf.idx(a);
                    assert(pv[t].0 == a);
                }
                if repr_contains(pv, a) {
                    let t = choose|t: int| 0 <= t < pv.len() && #[trigger] pv[t].0 == a;
                    assert(uf.keys@[t]@ == a);
                }
            }
            assert forall|a: Seq<char>| repr_contains(pv, a) implies #[trigger] uf.root_key(a) == repr_root_key(pv, a) by {
                let t = choose|t: int| 0 <= t < pv.len() && #[trigger] pv[t].0 == a;
                assert(uf.keys@[t]@ == a);
                assert(uf.contains(a));
                let u = uf.idx(a);
                assert(pv[u].0 == a);
                assert(u == t);
                assert(repr_index(pv, pv[t].0) == t);
            }
            assert forall|a: Seq<char>| #[trigger] uf.contains(a) implies uf.rank_of(a) == repr_rank(rv, a) by {
                let t = uf.idx(a);
                Self::lemma_rank_of_index(uf, t);
                assert(uf.rank@[t] == repr_rank(rv, names@[t]@));
            }
            assert forall|k: Seq<char>| #[trigger] uf.weight_of(k) == repr_weight(wv, k) by {
                let ew = uf.edge_weights@;
                if exists|i: int| 0 <= i < wv.len() && #[trigger] wv[i].0 == k {
                    let i = choose|i: int| 0 <= i < wv.len() && #[trigger] wv[i].0 == k;
                    assert(ew[i].0@ == k);
                    let i2 = choose|i2: int| 0 <= i2 < ew.len() && #[trigger] ew[i2].0@ == k;
                    if i2 != i {
                        assert(wv[i2].0 == k);
                    }
                } else {
                    if exists|i: int| 0 <= i < ew.len() && #[trigger] ew[i].0@ == k {
                        let i = choose|i: int| 0 <= i < ew.len() && #[trigger] ew[i].0@ == k;
                        assert(wv[i].0 == k);
                    }
                }
            }
        }
        Some(uf)
    }

    /// Whether the storage form describes a forest that `from_redis_repr`
    /// takes: node and edge keys each listed once, every parent itself a
    /// listed node, no cycle of parent links, and each rank listed at most
    /// once.
    pub fn repr_is_forest(repr: &RedisUnionFindRepr) -> (r: bool)
        ensures
            r == (repr_ok(pairs_view(repr.parent@), weights_view(repr.edge_weights@))
                && distinct_keys(weights_view(repr.rank@))),
    {
        Self::rebuild(repr).is_some()
    }

    /// Restore from the storage form, keeping its parent links, ranks and
    /// weights (a node without a rank entry has rank 0).
    pub fn from_redis_repr(repr: RedisUnionFindRepr) -> (r: UnionFind)
        requires
            repr_ok(pairs_view(repr.parent@), weights_view(repr.edge_weights@)),
            distinct_keys(weights_view(repr.rank@)),
        ensures
            r.wf(),
            repr_describes(r, pairs_view(repr.parent@), weights_view(repr.edge_weights@)),
            repr_ranks(r, weights_view(repr.rank@)),
    {
        match Self::rebuild(&repr) {
            Some(uf) => uf,
            None => UnionFind::new(),
        }
    }
}


impl UnionFind {
    /// A storage form determines what a union-find holds: two well-formed
    /// union-finds it describes track the same nodes, put every node under
    /// the same root (hence into the same clusters), give every node the same
    /// rank and record the same weights. Reading back what was written therefore gives back the
    /// union-find that was written (`from_redis_repr` of `to_redis_repr`).
    pub proof fn lemma_repr_determines(
        u1: UnionFind,
        u2: UnionFind,
        pv: Seq<(Seq<char>, Seq<char>)>,
        wv: Seq<(Seq<char>, u32)>,
        rv: Seq<(Seq<char>, u32)>,
    )
        requires
            u1.wf(),
            u2.wf(),
            repr_describes(u1, pv, wv),
            repr_describes(u2, pv, wv),
            repr_ranks(u1, rv),
            repr_ranks(u2, rv),
        ensures
            forall|a: Seq<char>| #[trigger] u1.contains(a) == u2.contains(a),
            forall|a: Seq<char>| #[trigger] u1.root_key(a) == u2.root_key(a),
            forall|a: Seq<char>, b: Seq<char>| #[trigger] u1.same(a, b) == u2.same(a, b),
            forall|a: Seq<char>| #[trigger] u1.rank_of(a) == u2.rank_of(a),
            forall|k: Seq<char>| #[trigger] u1.weight_of(k) == u2.weight_of(k),
    {
        assert forall|a: Seq<char>| #[trigger] u1.rank_of(a) == u2.rank_of(a) by {
            if repr_contains(pv, a) {
                assert(u1.contains(a) && u2.contains(a));
            } else {
                assert(!u1.contains(a) && !u2.contains(a));
            }
        }
        assert forall|a: Seq<char>| #[trigger] u1.root_key(a) == u2.root_key(a) by {
            if repr_contains(pv, a) {
                assert(u1.contains(a) && u2.contains(a));
            } else {
                assert(!u1.contains(a) && !u2.contains(a));
            }
        }
        assert forall|a: Seq<char>, b: Seq<char>| #[trigger] u1.same(a, b) == u2.same(a, b) by {
            assert(u1.root_key(a) == u2.root_key(a));
            assert(u1.root_key(b) == u2.root_key(b));
        }
    }
}

} // verus!
