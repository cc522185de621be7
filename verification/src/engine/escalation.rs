//! Escalation memory: repeated friction for one user promotes the decision.
use vstd::prelude::*;
use crate::decision::Decision;
use crate::store::EscalationEntry;

verus! {

/// Outcome of escalation analysis.
#[derive(Debug, Clone, Copy, PartialEq, Eq, Structural)]
pub enum EscalationOutcome {
    /// No escalation warranted.
    NoChange,
    /// The decision is promoted to the given one.
    EscalateTo(Decision),
}

/// Entries count when they are at most five minutes old.
pub const ESCALATION_WINDOW_SECS: i64 = 300;

/// The number of entries within the window before `now` carrying decision `d`.
pub open spec fn count_recent(entries: Seq<EscalationEntry>, now: i64, d: Decision) -> nat
    decreases entries.len(),
{
    if entries.len() == 0 {
        0
    } else {
        let e = entries.last();
        count_recent(entries.drop_last(), now, d)
            + if now - e.ts_unix <= ESCALATION_WINDOW_SECS && e.decision == d { 1nat } else { 0nat }
    }
}

/// Two recent holds promote a Challenge or Hold to Deny; otherwise three recent
/// challenges promote a Challenge to Hold.
pub open spec fn spec_escalation(current: Decision, entries: Seq<EscalationEntry>, now: i64) -> EscalationOutcome {
    if count_recent(entries, now, Decision::Hold) >= 2
        && (current == Decision::Challenge || current == Decision::Hold) {
        EscalationOutcome::EscalateTo(Decision::Deny)
    } else if count_recent(entries, now, Decision::Challenge) >= 3 && current == Decision::Challenge {
        EscalationOutcome::EscalateTo(Decision::Hold)
    } else {
        EscalationOutcome::NoChange
    }
}

/// How severe a decision is: Allow < Challenge < Hold < Deny.
pub open spec fn severity(d: Decision) -> int {
    match d {
        Decision::Allow => 0,
        Decision::Challenge => 1,
        Decision::Hold => 2,
        Decision::Deny => 3,
    }
}

fn count_recent_exec(entries: &[EscalationEntry], now: i64, d: Decision) -> (r: usize)
    ensures
        r == count_recent(entries@, now, d),
{
    let mut n: usize = 0;
    let mut i: usize = 0;
    while i < entries.len()
        invariant
            i <= entries.len(),
            n == count_recent(entries@.take(i as int), now, d),
            n <= i,
        decreases entries.len() - i,
    {
        let e = entries[i];
        assert(entries@.take(i as int + 1).drop_last() =~= entries@.take(i as int));
        let age: i128 = now as i128 - e.ts_unix as i128;
        if age <= ESCALATION_WINDOW_SECS as i128 && e.decision == d {
            n = n + 1;
        }
        i = i + 1;
    }
    assert(entries@.take(entries.len() as int) =~= entries@);
    n
}

/// Escalation analysis against an explicit clock (`now`, Unix seconds).
/// `entries` are the user's recent decisions, newest first.
pub fn check_escalation_at(current_decision: &Decision, entries: &[EscalationEntry], now: i64) -> (r: EscalationOutcome)
    ensures
        r == spec_escalation(*current_decision, entries@, now),
{
    let recent_challenges = count_recent_exec(entries, now, Decision::Challenge);
    let recent_holds = count_recent_exec(entries, now, Decision::Hold);
    let challenge_or_hold = match current_decision {
        Decision::Challenge | Decision::Hold => true,
        _ => false,
    };
    if recent_holds >= 2 && challenge_or_hold {
        return EscalationOutcome::EscalateTo(Decision::Deny);
    }
    if recent_challenges >= 3 && *current_decision == Decision::Challenge {
        return EscalationOutcome::EscalateTo(Decision::Hold);
    }
    EscalationOutcome::NoChange
}

/// The system clock read against the Unix epoch with
/// `std::time::SystemTime::duration_since`: `Ok` with the whole seconds since
/// the epoch, or `Err` with the whole seconds before it when the clock is set
/// earlier. It depends on the clock, so nothing is stated of it; it does not
/// panic.
#[verifier::external_body]
fn clock_since_epoch() -> (r: Result<u64, u64>) {
    match std::time::SystemTime::now().duration_since(std::time::UNIX_EPOCH) {
        Ok(d) => Ok(d.as_secs()),
        Err(e) => Err(e.duration().as_secs()),
    }
}

/// Examine the user's recent decisions (newest first) against the current
/// time and decide whether the current decision is escalated.
pub fn check_escalation(current_decision: &Decision, entries: &[EscalationEntry]) -> (r: EscalationOutcome)
    ensures
        exists|now: i64| r == spec_escalation(*current_decision, entries@, now),
{
    // Unix seconds, negative before the epoch, saturating at the range of i64.
    let now: i64 = match clock_since_epoch() {
        Ok(s) => if s <= i64::MAX as u64 { s as i64 } else { i64::MAX },
        Err(s) => if s <= i64::MAX as u64 { -(s as i64) } else { -i64::MAX },
    };
    check_escalation_at(current_decision, entries, now)
}

/// Escalation only ever promotes: an escalated decision is strictly more
/// severe than the current one, Allow and Deny are never escalated, and the
/// promotion is to Hold or Deny.
pub proof fn lemma_escalation_promotes(current: Decision, entries: Seq<EscalationEntry>, now: i64)
    ensures
        match spec_escalation(current, entries, now) {
            EscalationOutcome::EscalateTo(d) => severity(d) > severity(current)
                && (d == Decision::Hold || d == Decision::Deny),
            EscalationOutcome::NoChange => true,
        },
        current == Decision::Allow || current == Decision::Deny
            ==> spec_escalation(current, entries, now) == EscalationOutcome::NoChange,
{
}

/// Entries older than the window never influence the outcome: appending a
/// stale entry leaves the escalation unchanged.
pub proof fn lemma_stale_entries_ignored(current: Decision, entries: Seq<EscalationEntry>, e: EscalationEntry, now: i64)
    requires
        now - e.ts_unix > ESCALATION_WINDOW_SECS,
    ensures
        spec_escalation(current, entries.push(e), now) == spec_escalation(current, entries, now),
{
    assert(entries.push(e).drop_last() =~= entries);
}

} // verus!
