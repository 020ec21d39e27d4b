# quansio_server

The decision core of the Quansio governed runtime, written in Verus: every function in
`src/` carries a `requires`/`ensures` contract that Verus proves, and the properties the
runtime promises across calls are stated as `law_*` proof functions next to the code
they speak of.

## Layout

- `src/policy/`: capability tiers, trust escalation, RBAC, policy rules and user rules,
  privacy and sequence guards, policy evaluation (with the digest of its inputs), approval
  receipts (HMAC-signed, single-use) and the approval lifecycle decisions.
- `src/runtime/`: budgets and meter arithmetic, the work-graph orchestrator (release,
  join, selection under a concurrency gate, subtree cancellation), agent threads
  (lifecycle, delegation, handoff, mailbox cursors, joins), plan compilation, recovery
  planning, protocol state, checkpoints, compaction epochs and the context-bridge check.
- `src/observability/`: redaction of credentials, emails and canaries; spans, JSON logs,
  metrics and diagnostic bundles.
- `src/crypto.rs`, `src/time.rs`, `src/text.rs`, `src/json_text.rs`: the small trusted
  wrappers over `hex`, `hmac`/`sha2`, `chrono`, `serde_json` and std, each with a contract
  stated over named results.
- `app/`: what Verus does not see: the asynchronous ports (work graph, run control,
  planner workspace, context bridge), environment reads, and the serde copies of library
  types with `From` conversions both ways. It holds no decision of its own.
- `tests/`: ordinary Rust tests against the compiled library.

The runtime's PostgreSQL stores (`sqlx`) are I/O and are not part of this crate: their
schema and canonical id types live in crates that are not built here. What each store
decides (whether a write may happen, and which refusal answers otherwise) is a verified
function in `src/`, written to be run against the rows a store has locked.
