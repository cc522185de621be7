//! Whole-unit differences between millisecond timestamps, truncated toward
//! zero as `chrono::Duration::num_minutes` / `num_days` truncate.
use vstd::prelude::*;

verus! {

/// `x / d` rounded toward zero (`d > 0`).
pub open spec fn trunc_div(x: int, d: int) -> int {
    if x >= 0 {
        x / d
    } else {
        -((-x) / d)
    }
}

/// Whole minutes from `earlier_ms` to `later_ms`.
pub open spec fn spec_minutes_between(later_ms: i64, earlier_ms: i64) -> int {
    trunc_div(later_ms - earlier_ms, 60_000)
}

/// Whole days from `earlier_ms` to `later_ms`.
pub open spec fn spec_days_between(later_ms: i64, earlier_ms: i64) -> int {
    trunc_div(later_ms - earlier_ms, 86_400_000)
}

fn trunc_div_exec(later_ms: i64, earlier_ms: i64, unit: u64) -> (r: i64)
    requires
        unit >= 1000,
    ensures
        r == trunc_div(later_ms - earlier_ms, unit as int),
{
    let diff: i128 = later_ms as i128 - earlier_ms as i128;
    if diff >= 0 {
        let q: u128 = (diff as u128) / (unit as u128);
        assert(q <= diff / 1000) by (nonlinear_arith)
            requires q == (diff as u128) / (unit as u128), diff >= 0, unit >= 1000;
        q as i64
    } else {
        let m: u128 = (-diff) as u128;
        let q: u128 = m / (unit as u128);
        assert(q <= m / 1000) by (nonlinear_arith)
            requires q == m / (unit as u128), unit >= 1000;
        -(q as i64)
    }
}

/// Whole minutes from `earlier_ms` to `later_ms`, truncated toward zero.
pub fn minutes_between(later_ms: i64, earlier_ms: i64) -> (r: i64)
    ensures
        r == spec_minutes_between(later_ms, earlier_ms),
{
    trunc_div_exec(later_ms, earlier_ms, 60_000)
}

/// Whole days from `earlier_ms` to `later_ms`, truncated toward zero.
pub fn days_between(later_ms: i64, earlier_ms: i64) -> (r: i64)
    ensures
        r == spec_days_between(later_ms, earlier_ms),
{
    trunc_div_exec(later_ms, earlier_ms, 86_400_000)
}

} // verus!
