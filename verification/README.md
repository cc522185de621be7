# risk_engine

A deterministic risk scoring and policy engine for authentication requests,
verified with Verus.

- `src/` — the verified library: the request context and decision
  vocabulary, hard policy gates, the device / network / behavioural /
  correlation scoring rules, escalation memory, verdict assembly, the
  enrichment steps, signal-store keys, breach and fingerprint helpers, and
  the org graph (union-find clustering, cluster classification, org and
  cluster bias, adaptive threshold shifts, tenant snapshots).
- `tests/` — tests of the library on concrete values.
- `app/` — the service around it: wire formats (serde), async store
  contracts, Redis / PostgreSQL / HTTP adapters, the background recompute
  loop, and the floating-point parts (GeoIP distances, score multipliers,
  edge decay, cluster confidence, org risk score).
