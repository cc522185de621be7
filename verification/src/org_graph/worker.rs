//! Cadence of the background recompute and prune cycles.
use vstd::prelude::*;

verus! {

/// How often the background loop recomputes and prunes each tenant's graph.
#[derive(Debug, Clone, Copy)]
pub struct WorkerConfig {
    /// Seconds between recompute cycles.
    pub recompute_interval_secs: u64,
    /// Seconds between prunes of decayed edges (run with a recompute cycle
    /// once the previous prune is older than this).
    pub prune_interval_secs: u64,
}

impl Default for WorkerConfig {
    /// Recompute every five minutes, prune every hour.
    fn default() -> (r: Self)
        ensures
            r.recompute_interval_secs == 300,
            r.prune_interval_secs == 3600,
    {
        WorkerConfig { recompute_interval_secs: 300, prune_interval_secs: 3_600 }
    }
}

impl WorkerConfig {
    /// Whether a cycle should also prune: the last prune (if any) is at least
    /// a prune interval old.
    pub fn prune_due(&self, last_prune_secs: Option<u64>, now_secs: u64) -> (r: bool)
        ensures
            r == match last_prune_secs {
                Some(t) => now_secs >= t && now_secs - t >= self.prune_interval_secs,
                None => true,
            },
    {
        match last_prune_secs {
            Some(t) => now_secs >= t && now_secs - t >= self.prune_interval_secs,
            None => true,
        }
    }
}

} // verus!
