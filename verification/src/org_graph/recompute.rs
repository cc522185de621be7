//! Attribution of graph nodes to detected clusters after a recomputation.
use vstd::prelude::*;
use crate::text;

verus! {

/// The clusters' node lists as strings.
pub open spec fn clusters_view(clusters: Seq<Vec<String>>) -> Seq<Seq<Seq<char>>> {
    Seq::new(clusters.len(), |j: int| text::strings_view(clusters[j]@))
}

/// Node `n` is one of the nodes of cluster `c`.
pub open spec fn lists(c: Seq<Seq<char>>, n: Seq<char>) -> bool {
    exists|t: int| 0 <= t < c.len() && c[t] == n
}

/// Cluster `k` is the one `n` is attributed to: it lists `n`, no cluster
/// listing `n` has a higher risk, and every earlier one listing it has a
/// strictly lower risk (the first of the strongest wins).
pub open spec fn attributed(cv: Seq<Seq<Seq<char>>>, risks: Seq<u8>, n: Seq<char>, k: int) -> bool {
    &&& 0 <= k < cv.len()
    &&& lists(cv[k], n)
    &&& forall|j: int| 0 <= j < cv.len() && lists(#[trigger] cv[j], n) ==> risks[j] <= risks[k]
    &&& forall|j: int| 0 <= j < k && lists(#[trigger] cv[j], n) ==> risks[j] < risks[k]
}

/// Some entry of `r` names `n`.
pub open spec fn covered(r: Seq<(String, usize)>, n: Seq<char>) -> bool {
    exists|p: int| 0 <= p < r.len() && #[trigger] r[p].0@ == n
}

/// Position (cluster `j`, entry `t`) comes before the cursor (`k`, `i`).
spec fn before(j: int, t: int, k: int, i: int) -> bool {
    j < k || (j == k && t < i)
}

fn position_of(r: &Vec<(String, usize)>, name: &str) -> (p: Option<usize>)
    ensures
        match p {
            Some(q) => q < r@.len() && r@[q as int].0@ == name@,
            None => forall|q: int| 0 <= q < r@.len() ==> r@[q].0@ != name@,
        },
{
    let mut q: usize = 0;
    while q < r.len()
        invariant
            q <= r@.len(),
            forall|x: int| 0 <= x < q ==> r@[x].0@ != name@,
        decreases r.len() - q,
    {
        if text::str_eq(r[q].0.as_str(), name) {
            return Some(q);
        }
        q = q + 1;
    }
    None
}

/// Attribute every node of the clusters to one cluster: the one with the
/// highest risk among those listing it, the earliest of them on ties. Each
/// node appears once, in the order of first appearance.
#[verifier::spinoff_prover]
pub fn strongest_memberships(clusters: &Vec<Vec<String>>, risks: &Vec<u8>) -> (r: Vec<(String, usize)>)
    requires
        clusters@.len() == risks@.len(),
    ensures
        forall|p: int, q: int| 0 <= p < r@.len() && 0 <= q < r@.len() && p != q ==> r@[p].0@ != r@[q].0@,
        forall|p: int| 0 <= p < r@.len() ==> attributed(clusters_view(clusters@), risks@, #[trigger] r@[p].0@, r@[p].1 as int),
        forall|j: int, t: int| 0 <= j < clusters@.len() && 0 <= t < clusters@[j]@.len()
            ==> covered(r@, #[trigger] clusters@[j]@[t]@),
{
    let ghost cv = clusters_view(clusters@);
    let mut r: Vec<(String, usize)> = Vec::new();
    let n = clusters.len();
    let mut k: usize = 0;
    while k < n
        invariant
            n == clusters@.len(),
            n == risks@.len(),
            cv == clusters_view(clusters@),
            k <= n,
            forall|p: int, q: int| 0 <= p < r@.len() && 0 <= q < r@.len() && p != q ==> r@[p].0@ != r@[q].0@,
            forall|p: int| 0 <= p < r@.len() ==> (#[trigger] r@[p]).1 < k && lists(cv[r@[p].1 as int], r@[p].0@),
            forall|p: int, j: int, t: int| 0 <= p < r@.len() && 0 <= j < k && 0 <= t < cv[j].len()
                && #[trigger] cv[j][t] == #[trigger] r@[p].0@
                ==> risks@[j] <= risks@[r@[p].1 as int] && (j < r@[p].1 ==> risks@[j] < risks@[r@[p].1 as int]),
            forall|j: int, t: int| 0 <= j < k && 0 <= t < cv[j].len() ==> covered(r@, #[trigger] cv[j][t]),
        decreases n - k,
    {
        let m = clusters[k].len();
        assert forall|j: int, t: int| 0 <= j <= k && 0 <= t < cv[j].len() && before(j, t, k as int, 0)
            implies covered(r@, #[trigger] cv[j][t]) by {
            assert(j < k);
        }
        let mut i: usize = 0;
        while i < m
            invariant
                n == clusters@.len(),
                n == risks@.len(),
                cv == clusters_view(clusters@),
                k < n,
                m == cv[k as int].len(),
                i <= m,
                forall|p: int, q: int| 0 <= p < r@.len() && 0 <= q < r@.len() && p != q ==> r@[p].0@ != r@[q].0@,
                forall|p: int| 0 <= p < r@.len() ==> (#[trigger] r@[p]).1 <= k && lists(cv[r@[p].1 as int], r@[p].0@),
                forall|p: int, j: int, t: int| 0 <= p < r@.len() && 0 <= j <= k && 0 <= t < cv[j].len()
                    && before(j, t, k as int, i as int) && #[trigger] cv[j][t] == #[trigger] r@[p].0@
                    ==> risks@[j] <= risks@[r@[p].1 as int] && (j < r@[p].1 ==> risks@[j] < risks@[r@[p].1 as int]),
                forall|j: int, t: int| 0 <= j <= k && 0 <= t < cv[j].len() && before(j, t, k as int, i as int)
                    ==> covered(r@, #[trigger] cv[j][t]),
            decreases m - i,
        {
            let name = clusters[k][i].as_str();
            assert(name@ == cv[k as int][i as int]);
            let ghost r0 = r@;
            match position_of(&r, name) {
                None => {
                    r.push((clusters[k][i].clone(), k));
                    proof {
                        let last = r0.len() as int;
                        assert(lists(cv[k as int], name@)) by {
                            assert(cv[k as int][i as int] == name@);
                        }
                        assert forall|p: int| 0 <= p < r@.len() implies (#[trigger] r@[p]).1 <= k && lists(cv[r@[p].1 as int], r@[p].0@) by {
                            if p < last { assert(r@[p] == r0[p]); }
                        }
                        assert forall|p: int, q: int| 0 <= p < r@.len() && 0 <= q < r@.len() && p != q implies r@[p].0@ != r@[q].0@ by {
                            if p < last && q < last { assert(r@[p] == r0[p] && r@[q] == r0[q]); }
                            else if p < last { assert(r@[p] == r0[p]); }
                            else if q < last { assert(r@[q] == r0[q]); }
                        }
                        assert forall|p: int, j: int, t: int| 0 <= p < r@.len() && 0 <= j <= k && 0 <= t < cv[j].len()
                            && before(j, t, k as int, i + 1) && #[trigger] cv[j][t] == #[trigger] r@[p].0@
                            implies risks@[j] <= risks@[r@[p].1 as int] && (j < r@[p].1 ==> risks@[j] < risks@[r@[p].1 as int]) by {
                            if p < last {
                                assert(r@[p] == r0[p]);
                                if j == k && t == i {
                                    assert(r0[p].0@ == name@);
                                }
                            } else {
                                if before(j, t, k as int, i as int) {
                                    assert(covered(r0, cv[j][t]));
                                    let pp = choose|pp: int| 0 <= pp < r0.len() && #[trigger] r0[pp].0@ == cv[j][t];
                                    assert(r0[pp].0@ == name@);
                                }
                            }
                        }
                        assert forall|j: int, t: int| 0 <= j <= k && 0 <= t < cv[j].len() && before(j, t, k as int, i + 1)
                            implies covered(r@, #[trigger] cv[j][t]) by {
                            if before(j, t, k as int, i as int) {
                                assert(covered(r0, cv[j][t]));
                                let pp = choose|pp: int| 0 <= pp < r0.len() && #[trigger] r0[pp].0@ == cv[j][t];
                                assert(r@[pp] == r0[pp]);
                            } else {
                                assert(r@[last].0@ == cv[j][t]);
                            }
                        }
                    }
                },
                Some(p0) => {
                    let cur = r[p0].1;
                    if risks[k] > risks[cur] {
                        let nm = r[p0].0.clone();
                        r.set(p0, (nm, k));
                    }
                    proof {
                        assert(r0[p0 as int].0@ == name@);
                        assert(lists(cv[k as int], name@)) by {
                            assert(cv[k as int][i as int] == name@);
                        }
                        assert forall|p: int| 0 <= p < r@.len() implies (#[trigger] r@[p]).1 <= k && lists(cv[r@[p].1 as int], r@[p].0@) by {
                            if p != p0 { assert(r@[p] == r0[p]); }
                        }
                        assert forall|p: int, q: int| 0 <= p < r@.len() && 0 <= q < r@.len() && p != q implies r@[p].0@ != r@[q].0@ by {
                            assert(r@[p].0@ == r0[p].0@ && r@[q].0@ == r0[q].0@);
                        }
                        assert forall|p: int, j: int, t: int| 0 <= p < r@.len() && 0 <= j <= k && 0 <= t < cv[j].len()
                            && before(j, t, k as int, i + 1) && #[trigger] cv[j][t] == #[trigger] r@[p].0@
                            implies risks@[j] <= risks@[r@[p].1 as int] && (j < r@[p].1 ==> risks@[j] < risks@[r@[p].1 as int]) by {
                            if p != p0 {
                                assert(r@[p] == r0[p]);
                                if j == k && t == i {
                                    assert(r0[p].0@ == name@);
                                    assert(r0[p0 as int].0@ == name@);
                                }
                            } else {
                                assert(r@[p].0@ == name@);
                                if j == k && t == i {
                                } else {
                                    assert(before(j, t, k as int, i as int));
                                    assert(cv[j][t] == r0[p0 as int].0@);
                                }
                            }
                        }
                        assert forall|j: int, t: int| 0 <= j <= k && 0 <= t < cv[j].len() && before(j, t, k as int, i + 1)
                            implies covered(r@, #[trigger] cv[j][t]) by {
                            if before(j, t, k as int, i as int) {
                                assert(covered(r0, cv[j][t]));
                                let pp = choose|pp: int| 0 <= pp < r0.len() && #[trigger] r0[pp].0@ == cv[j][t];
                                assert(r@[pp].0@ == r0[pp].0@);
                            } else {
                                assert(r@[p0 as int].0@ == cv[j][t]);
                            }
                        }
                    }
                },
            }
            i = i + 1;
        }
        proof {
            assert forall|p: int, j: int, t: int| 0 <= p < r@.len() && 0 <= j < k + 1 && 0 <= t < cv[j].len()
                && #[trigger] cv[j][t] == #[trigger] r@[p].0@
                implies risks@[j] <= risks@[r@[p].1 as int] && (j < r@[p].1 ==> risks@[j] < risks@[r@[p].1 as int]) by {
                assert(before(j, t, k as int, m as int));
            }
            assert forall|j: int, t: int| 0 <= j < k + 1 && 0 <= t < cv[j].len()
                implies covered(r@, #[trigger] cv[j][t]) by {
                assert(before(j, t, k as int, m as int));
            }
        }
        k = k + 1;
    }
    proof {
        assert forall|p: int| 0 <= p < r@.len() implies attributed(cv, risks@, #[trigger] r@[p].0@, r@[p].1 as int) by {
            let nm = r@[p].0@;
            let kk = r@[p].1 as int;
            assert forall|j: int| 0 <= j < cv.len() && lists(#[trigger] cv[j], nm) implies risks@[j] <= risks@[kk] by {
                let t = choose|t: int| 0 <= t < cv[j].len() && cv[j][t] == nm;
            }
            assert forall|j: int| 0 <= j < kk && lists(#[trigger] cv[j], nm) implies risks@[j] < risks@[kk] by {
                let t = choose|t: int| 0 <= t < cv[j].len() && cv[j][t] == nm;
            }
        }
        assert forall|j: int, t: int| 0 <= j < clusters@.len() && 0 <= t < clusters@[j]@.len()
            implies covered(r@, #[trigger] clusters@[j]@[t]@) by {
            assert(cv[j][t] == clusters@[j]@[t]@);
            assert(covered(r@, cv[j][t]));
        }
    }
    r
}

/// A `user:` node key.
pub open spec fn is_user_key(n: Seq<char>) -> bool {
    text::starts_with(n, "user:"@)
}

fn position_in(v: &Vec<String>, name: &str) -> (p: Option<usize>)
    ensures
        match p {
            Some(q) => q < v@.len() && v@[q as int]@ == name@,
            None => forall|q: int| 0 <= q < v@.len() ==> v@[q]@ != name@,
        },
{
    let mut q: usize = 0;
    while q < v.len()
        invariant
            q <= v@.len(),
            forall|x: int| 0 <= x < q ==> v@[x]@ != name@,
        decreases v.len() - q,
    {
        if text::str_eq(v[q].as_str(), name) {
            return Some(q);
        }
        q = q + 1;
    }
    None
}

/// The distinct user nodes of the clusters, each once, in order of first
/// appearance.
#[verifier::spinoff_prover]
pub fn distinct_users(clusters: &Vec<Vec<String>>) -> (r: Vec<String>)
    ensures
        forall|p: int, q: int| 0 <= p < r@.len() && 0 <= q < r@.len() && p != q ==> r@[p]@ != r@[q]@,
        forall|p: int| 0 <= p < r@.len() ==> is_user_key(#[trigger] r@[p]@)
            && exists|j: int, t: int| 0 <= j < clusters@.len() && 0 <= t < clusters@[j]@.len() && clusters@[j]@[t]@ == r@[p]@,
        forall|j: int, t: int| 0 <= j < clusters@.len() && 0 <= t < clusters@[j]@.len() && is_user_key(#[trigger] clusters@[j]@[t]@)
            ==> text::strings_view(r@).contains(clusters@[j]@[t]@),
{
    let ghost cv = clusters_view(clusters@);
    let mut r: Vec<String> = Vec::new();
    let n = clusters.len();
    let mut k: usize = 0;
    while k < n
        invariant
            n == clusters@.len(),
            cv == clusters_view(clusters@),
            k <= n,
            forall|p: int, q: int| 0 <= p < r@.len() && 0 <= q < r@.len() && p != q ==> r@[p]@ != r@[q]@,
            forall|p: int| 0 <= p < r@.len() ==> is_user_key(#[trigger] r@[p]@)
                && exists|j: int, t: int| 0 <= j < n && 0 <= t < cv[j].len() && cv[j][t] == r@[p]@,
            forall|j: int, t: int| 0 <= j < k && 0 <= t < cv[j].len() && is_user_key(#[trigger] cv[j][t])
                ==> text::strings_view(r@).contains(cv[j][t]),
        decreases n - k,
    {
        let m = clusters[k].len();
        let mut i: usize = 0;
        while i < m
            invariant
                n == clusters@.len(),
                cv == clusters_view(clusters@),
                k < n,
                m == cv[k as int].len(),
                i <= m,
                forall|p: int, q: int| 0 <= p < r@.len() && 0 <= q < r@.len() && p != q ==> r@[p]@ != r@[q]@,
                forall|p: int| 0 <= p < r@.len() ==> is_user_key(#[trigger] r@[p]@)
                    && exists|j: int, t: int| 0 <= j < n && 0 <= t < cv[j].len() && cv[j][t] == r@[p]@,
                forall|j: int, t: int| 0 <= j <= k && 0 <= t < cv[j].len() && before(j, t, k as int, i as int)
                    && is_user_key(#[trigger] cv[j][t]) ==> text::strings_view(r@).contains(cv[j][t]),
            decreases m - i,
        {
            let name = clusters[k][i].as_str();
            assert(name@ == cv[k as int][i as int]);
            let c = text::chars_of(name);
            let ghost r0 = r@;
            if text::has_prefix(&c, "user:") {
                match position_in(&r, name) {
                    None => {
                        r.push(clusters[k][i].clone());
                        proof {
                            let last = r0.len() as int;
                            assert(text::strings_view(r@) == text::strings_view(r0).push(name@));
                            assert forall|p: int, q: int| 0 <= p < r@.len() && 0 <= q < r@.len() && p != q implies r@[p]@ != r@[q]@ by {
                                if p < last && q < last { assert(r@[p] == r0[p] && r@[q] == r0[q]); }
                                else if p < last { assert(r@[p] == r0[p]); }
                                else if q < last { assert(r@[q] == r0[q]); }
                            }
                            assert forall|p: int| 0 <= p < r@.len() implies is_user_key(#[trigger] r@[p]@)
                                && exists|j: int, t: int| 0 <= j < n && 0 <= t < cv[j].len() && cv[j][t] == r@[p]@ by {
                                if p < last { assert(r@[p] == r0[p]); }
                                else { assert(cv[k as int][i as int] == r@[p]@); }
                            }
                            assert forall|j: int, t: int| 0 <= j <= k && 0 <= t < cv[j].len() && before(j, t, k as int, i + 1)
                                && is_user_key(#[trigger] cv[j][t]) implies text::strings_view(r@).contains(cv[j][t]) by {
                                if before(j, t, k as int, i as int) {
                                    let w = choose|w: int| 0 <= w < text::strings_view(r0).len() && text::strings_view(r0)[w] == cv[j][t];
                                    assert(text::strings_view(r@)[w] == cv[j][t]);
                                } else {
                                    assert(text::strings_view(r@)[last] == cv[j][t]);
                                }
                            }
                        }
                    },
                    Some(p0) => {
                        proof {
                            assert forall|j: int, t: int| 0 <= j <= k && 0 <= t < cv[j].len() && before(j, t, k as int, i + 1)
                                && is_user_key(#[trigger] cv[j][t]) implies text::strings_view(r@).contains(cv[j][t]) by {
                                if !before(j, t, k as int, i as int) {
                                    assert(text::strings_view(r@)[p0 as int] == cv[j][t]);
                                }
                            }
                        }
                    },
                }
            } else {
                proof {
                    assert forall|j: int, t: int| 0 <= j <= k && 0 <= t < cv[j].len() && before(j, t, k as int, i + 1)
                        && is_user_key(#[trigger] cv[j][t]) implies text::strings_view(r@).contains(cv[j][t]) by {
                        if !before(j, t, k as int, i as int) {
                            assert(cv[j][t] == name@);
                        }
                    }
                }
            }
            i = i + 1;
        }
        proof {
            assert forall|j: int, t: int| 0 <= j < k + 1 && 0 <= t < cv[j].len() && is_user_key(#[trigger] cv[j][t])
                implies text::strings_view(r@).contains(cv[j][t]) by {
                assert(before(j, t, k as int, m as int));
            }
        }
        k = k + 1;
    }
    proof {
        assert forall|p: int| 0 <= p < r@.len() implies is_user_key(#[trigger] r@[p]@)
            && exists|j: int, t: int| 0 <= j < clusters@.len() && 0 <= t < clusters@[j]@.len() && clusters@[j]@[t]@ == r@[p]@ by {
            let (j, t) = choose|j: int, t: int| 0 <= j < n && 0 <= t < cv[j].len() && cv[j][t] == r@[p]@;
            assert(clusters@[j]@[t]@ == cv[j][t]);
        }
        assert forall|j: int, t: int| 0 <= j < clusters@.len() && 0 <= t < clusters@[j]@.len() && is_user_key(#[trigger] clusters@[j]@[t]@)
            implies text::strings_view(r@).contains(clusters@[j]@[t]@) by {
            assert(clusters@[j]@[t]@ == cv[j][t]);
        }
    }
    r
}

/// The keys of the edges that are no longer alive, in the given order.
pub open spec fn dead_keys(keys: Seq<Seq<char>>, alive: Seq<bool>) -> Seq<Seq<char>>
    decreases keys.len(),
{
    if keys.len() == 0 || alive.len() != keys.len() {
        Seq::empty()
    } else {
        let rest = dead_keys(keys.drop_last(), alive.drop_last());
        if alive.last() { rest } else { rest.push(keys.last()) }
    }
}

/// The pruning step of a recomputation: given each edge's key and whether
/// the edge is still alive, the keys of the edges to drop, in order.
pub fn pruned_keys(keys: &Vec<String>, alive: &Vec<bool>) -> (r: Vec<String>)
    requires
        keys@.len() == alive@.len(),
    ensures
        text::strings_view(r@) == dead_keys(text::strings_view(keys@), alive@),
{
    let mut out: Vec<String> = Vec::new();
    let mut i: usize = 0;
    while i < keys.len()
        invariant
            i <= keys@.len(),
            keys@.len() == alive@.len(),
            text::strings_view(out@) == dead_keys(text::strings_view(keys@).take(i as int), alive@.take(i as int)),
        decreases keys.len() - i,
    {
        let ghost kv = text::strings_view(keys@);
        proof {
            assert(kv.take(i as int + 1).drop_last() =~= kv.take(i as int));
            assert(alive@.take(i as int + 1).drop_last() =~= alive@.take(i as int));
        }
        if !alive[i] {
            let ghost before = out@;
            out.push(keys[i].clone());
            proof {
                assert(text::strings_view(out@) =~= text::strings_view(before).push(keys@[i as int]@));
            }
        }
        i = i + 1;
    }
    proof {
        assert(text::strings_view(keys@).take(keys@.len() as int) =~= text::strings_view(keys@));
        assert(alive@.take(keys@.len() as int) =~= alive@);
    }
    out
}

} // verus!
