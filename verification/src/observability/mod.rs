//! Observability: correlated traces, redacted logs, metrics and diagnostic bundles.
//!
//! A run is diagnosable across runtime, intelligence and desktop because every span and
//! log carries the same correlation id. Secret canaries and credential-shaped values are
//! redacted before a log, trace attribute or diagnostic bundle is emitted.

pub mod redact;
pub mod trace;
pub mod bundle;

use vstd::prelude::*;

verus! {

/// Repository path of this module's canonical owner.
pub const OBSERVABILITY_OWNER: &'static str = "crates/server/src/observability";

} // verus!
