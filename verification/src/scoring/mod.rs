//! Component scoring: shared rule-application machinery.
//!
//! Each component scorer walks its rules in a fixed order. A rule that fires
//! adds its weight to the component score without exceeding the component cap
//! ([`capped_add`]); the factor it reports carries the points actually counted,
//! and a rule whose effective contribution is zero reports nothing.
//! [`spec_fold`] states that walk over the sequence of rules that fired.
use vstd::prelude::*;
use crate::decision::{Factor, FactorView, ScoreComponent};

pub mod correlation;
pub mod device;
pub mod network;
pub mod velocity;

verus! {

/// A rule that fired: its name, weight and description. A `note` reports a
/// zero-contribution factor without touching the score.
pub struct Candidate {
    pub name: Seq<char>,
    pub weight: u8,
    pub description: Seq<char>,
    pub note: bool,
}

pub open spec fn rule(name: Seq<char>, weight: u8, description: Seq<char>) -> Candidate {
    Candidate { name, weight, description, note: false }
}

pub open spec fn note(name: Seq<char>, description: Seq<char>) -> Candidate {
    Candidate { name, weight: 0, description, note: true }
}

/// `cap - current`, floored at zero.
pub open spec fn headroom(current: u8, cap: u8) -> u8 {
    if current >= cap { 0 } else { (cap - current) as u8 }
}

/// The points `capped_add` counts for `raw` on top of `current`.
pub open spec fn capped_effect(current: u8, cap: u8, raw: u8) -> u8 {
    if raw <= headroom(current, cap) { raw } else { headroom(current, cap) }
}

/// Applies the fired rules in order, starting from `start`: the final
/// component score and the factors reported.
pub open spec fn spec_fold(cands: Seq<Candidate>, cap: u8, comp: ScoreComponent, start: u8) -> (u8, Seq<FactorView>)
    decreases cands.len(),
{
    if cands.len() == 0 {
        (start, Seq::empty())
    } else {
        let (s, fs) = spec_fold(cands.drop_last(), cap, comp, start);
        let c = cands.last();
        if c.note {
            (s, fs.push(FactorView { name: c.name, component: comp, contribution: 0, description: c.description }))
        } else {
            let eff = capped_effect(s, cap, c.weight);
            if eff > 0 {
                (
                    (s + eff) as u8,
                    fs.push(FactorView { name: c.name, component: comp, contribution: eff, description: c.description }),
                )
            } else {
                (s, fs)
            }
        }
    }
}

/// Adds `raw` to `current` without exceeding `cap`; returns the points counted.
pub fn capped_add(current: &mut u8, cap: u8, raw: u8) -> (effective: u8)
    ensures
        effective == capped_effect(*old(current), cap, raw),
        *final(current) == *old(current) + effective,
{
    let room = cap.saturating_sub(*current);
    let effective = if raw < room { raw } else { room };
    assert(*current as int + effective as int <= 255);
    *current = *current + effective;
    effective
}

/// Builds a factor.
pub fn factor(name: &str, component: ScoreComponent, contribution: u8, description: String) -> (f: Factor)
    ensures
        f@ == (FactorView { name: name@, component, contribution, description: description@ }),
{
    Factor { name: name.to_string(), component, contribution, description }
}

proof fn lemma_fold_step(cands: Seq<Candidate>, c: Candidate, cap: u8, comp: ScoreComponent, start: u8)
    ensures
        spec_fold(cands.push(c), cap, comp, start) == ({
            let (s, fs) = spec_fold(cands, cap, comp, start);
            if c.note {
                (s, fs.push(FactorView { name: c.name, component: comp, contribution: 0, description: c.description }))
            } else {
                let eff = capped_effect(s, cap, c.weight);
                if eff > 0 {
                    ((s + eff) as u8, fs.push(FactorView { name: c.name, component: comp, contribution: eff, description: c.description }))
                } else {
                    (s, fs)
                }
            }
        }),
{
    assert(cands.push(c).drop_last() =~= cands);
}

/// A scorer's running state: the component score, the factors reported so far
/// (after `base` factors that were present before scoring started) and the
/// rules that fired.
pub open spec fn tracks(
    score: u8,
    factors: Seq<Factor>,
    base: Seq<FactorView>,
    cands: Seq<Candidate>,
    cap: u8,
    comp: ScoreComponent,
    start: u8,
) -> bool {
    let (s, fs) = spec_fold(cands, cap, comp, start);
    score == s && crate::decision::factors_view(factors) == base + fs
}

/// Applies one fired rule: the capped points are added and, when non-zero,
/// a factor reporting them is appended.
pub fn apply_rule(
    score: &mut u8,
    cap: u8,
    comp: ScoreComponent,
    factors: &mut Vec<Factor>,
    name: &str,
    weight: u8,
    description: String,
    Ghost(base): Ghost<Seq<FactorView>>,
    Ghost(cands): Ghost<Seq<Candidate>>,
    Ghost(start): Ghost<u8>,
)
    requires
        tracks(*old(score), old(factors)@, base, cands, cap, comp, start),
    ensures
        tracks(*final(score), final(factors)@, base, cands.push(rule(name@, weight, description@)), cap, comp, start),
{
    proof {
        lemma_fold_step(cands, rule(name@, weight, description@), cap, comp, start);
    }
    let eff = capped_add(score, cap, weight);
    if eff > 0 {
        let f = factor(name, comp, eff, description);
        let ghost before = factors@;
        factors.push(f);
        proof {
            let (s, fs) = spec_fold(cands, cap, comp, start);
            assert(crate::decision::factors_view(factors@) =~= crate::decision::factors_view(before).push(f@));
            assert(base + fs.push(f@) =~= (base + fs).push(f@));
        }
    }
}

/// Appends a zero-contribution factor without touching the score.
pub fn apply_note(
    score: &u8,
    comp: ScoreComponent,
    factors: &mut Vec<Factor>,
    name: &str,
    description: String,
    Ghost(cap): Ghost<u8>,
    Ghost(base): Ghost<Seq<FactorView>>,
    Ghost(cands): Ghost<Seq<Candidate>>,
    Ghost(start): Ghost<u8>,
)
    requires
        tracks(*score, old(factors)@, base, cands, cap, comp, start),
    ensures
        tracks(*score, final(factors)@, base, cands.push(note(name@, description@)), cap, comp, start),
{
    proof {
        lemma_fold_step(cands, note(name@, description@), cap, comp, start);
    }
    let f = factor(name, comp, 0, description);
    let ghost before = factors@;
    factors.push(f);
    proof {
        let (s, fs) = spec_fold(cands, cap, comp, start);
        assert(crate::decision::factors_view(factors@) =~= crate::decision::factors_view(before).push(f@));
        assert(base + fs.push(f@) =~= (base + fs).push(f@));
    }
}

/// Every fold result respects the cap once the start does: the component
/// score never exceeds its cap, and the factor contributions add up to the
/// points the score gained.
pub proof fn lemma_fold_bounded(cands: Seq<Candidate>, cap: u8, comp: ScoreComponent, start: u8)
    requires
        start <= cap,
    ensures
        spec_fold(cands, cap, comp, start).0 <= cap,
        spec_fold(cands, cap, comp, start).0 == start + contribution_sum(spec_fold(cands, cap, comp, start).1),
    decreases cands.len(),
{
    if cands.len() > 0 {
        lemma_fold_bounded(cands.drop_last(), cap, comp, start);
        let (s, fs) = spec_fold(cands.drop_last(), cap, comp, start);
        let c = cands.last();
        if c.note {
            lemma_contribution_sum_push(fs, FactorView { name: c.name, component: comp, contribution: 0, description: c.description });
        } else {
            let eff = capped_effect(s, cap, c.weight);
            if eff > 0 {
                lemma_contribution_sum_push(fs, FactorView { name: c.name, component: comp, contribution: eff, description: c.description });
            }
        }
    }
}

/// The sum of the contributions of a list of factors.
pub open spec fn contribution_sum(fs: Seq<FactorView>) -> int
    decreases fs.len(),
{
    if fs.len() == 0 {
        0
    } else {
        contribution_sum(fs.drop_last()) + fs.last().contribution
    }
}

proof fn lemma_contribution_sum_push(fs: Seq<FactorView>, f: FactorView)
    ensures
        contribution_sum(fs.push(f)) == contribution_sum(fs) + f.contribution,
{
    assert(fs.push(f).drop_last() =~= fs);
}

/// Some fired rule carries the name `n`.
pub open spec fn names_rule(cands: Seq<Candidate>, n: Seq<char>) -> bool {
    exists|j: int| 0 <= j < cands.len() && #[trigger] cands[j].name == n
}

/// Some reported factor carries the name `n`.
pub open spec fn reports(fs: Seq<FactorView>, n: Seq<char>) -> bool {
    exists|i: int| 0 <= i < fs.len() && #[trigger] fs[i].name == n
}

/// A scorer reports a factor only under the name of a rule that fired.
pub proof fn lemma_fold_reports_only_fired(cands: Seq<Candidate>, cap: u8, comp: ScoreComponent, start: u8, n: Seq<char>)
    ensures
        reports(spec_fold(cands, cap, comp, start).1, n) ==> names_rule(cands, n),
    decreases cands.len(),
{
    if cands.len() > 0 {
        let prev = cands.drop_last();
        lemma_fold_reports_only_fired(prev, cap, comp, start, n);
        let (s, fs) = spec_fold(prev, cap, comp, start);
        let out = spec_fold(cands, cap, comp, start).1;
        if reports(out, n) {
            let i = choose|i: int| 0 <= i < out.len() && #[trigger] out[i].name == n;
            if i < fs.len() {
                assert(out[i] == fs[i]);
                assert(reports(fs, n));
                let j = choose|j: int| 0 <= j < prev.len() && #[trigger] prev[j].name == n;
                assert(cands[j] == prev[j]);
            } else {
                assert(cands[cands.len() - 1].name == n);
            }
        }
    }
}

/// A fired rule with a positive weight is reported, unless the component
/// score has reached its cap.
pub proof fn lemma_fold_reports_fired(cands: Seq<Candidate>, cap: u8, comp: ScoreComponent, start: u8, j: int)
    requires
        start <= cap,
        0 <= j < cands.len(),
        !cands[j].note,
        cands[j].weight > 0,
    ensures
        reports(spec_fold(cands, cap, comp, start).1, cands[j].name) || spec_fold(cands, cap, comp, start).0 == cap,
    decreases cands.len(),
{
    let prev = cands.drop_last();
    lemma_fold_bounded(prev, cap, comp, start);
    let (s, fs) = spec_fold(prev, cap, comp, start);
    let out = spec_fold(cands, cap, comp, start);
    let n = cands[j].name;
    if j == cands.len() - 1 {
        let eff = capped_effect(s, cap, cands[j].weight);
        if eff > 0 {
            assert(out.1[fs.len() as int].name == n);
        }
    } else {
        assert(prev[j] == cands[j]);
        lemma_fold_reports_fired(prev, cap, comp, start, j);
        if reports(fs, n) {
            let i = choose|i: int| 0 <= i < fs.len() && #[trigger] fs[i].name == n;
            assert(out.1[i] == fs[i]);
        }
    }
}

/// A name carried by a rule of `a + b` is carried by a rule of `a` or of `b`.
pub proof fn lemma_names_rule_concat(a: Seq<Candidate>, b: Seq<Candidate>, n: Seq<char>)
    ensures
        names_rule(a + b, n) <==> (names_rule(a, n) || names_rule(b, n)),
{
    if names_rule(a + b, n) {
        let j = choose|j: int| 0 <= j < (a + b).len() && #[trigger] (a + b)[j].name == n;
        if j < a.len() {
            assert(a[j] == (a + b)[j]);
        } else {
            assert(b[j - a.len()] == (a + b)[j]);
        }
    }
    if names_rule(a, n) {
        let j = choose|j: int| 0 <= j < a.len() && #[trigger] a[j].name == n;
        assert((a + b)[j] == a[j]);
    }
    if names_rule(b, n) {
        let j = choose|j: int| 0 <= j < b.len() && #[trigger] b[j].name == n;
        assert((a + b)[a.len() + j] == b[j]);
    }
}

} // verus!
