//! Recovery after process, worker and machine failure.
//!
//! Recovery rebuilds from durable state only: protocol state, runtime events,
//! steps/attempts, checkpoints, evidence and the effect ledger. It never consults semantic
//! memory, and it never repeats an uncertain external effect: an effect whose outcome is
//! unknown is reconciled first.
//!
//! The three rules this module enforces:
//!
//! 1. Resume to the same safe logical point: a killed runtime re-derives the run's next
//!    safe action from durable state, with the precedence cancellation, then reconciling
//!    an unsettled effect, then staying parked on a wait, then resuming.
//! 2. Fence stale workers: a generation behind the run's current one cannot mutate it.
//! 3. Reconcile before resuming: an `OUTCOME_UNKNOWN` effect is settled by evidence and
//!    never by dispatching again.

pub mod plan;
pub mod service;

use vstd::prelude::*;
use crate::text::str_eq;

verus! {

/// Repository path of this module's canonical owner.
pub const RECOVERY_OWNER: &'static str = "crates/server/src/runtime/recovery";

/// Every table recovery may read: durable recovery state only.
pub const RECOVERY_READ_TABLES: [&'static str; 10] = [
    "runs",
    "turns",
    "steps",
    "attempts",
    "protocol_states",
    "runtime_events",
    "checkpoints",
    "effect_records",
    "evidence",
    "work_nodes",
];

/// Tables recovery must never read: recovery is not memory.
pub const RECOVERY_FORBIDDEN_TABLES: [&'static str; 6] = [
    "memory_entries",
    "memory_candidates",
    "memory_edges",
    "embeddings",
    "embedding_vectors",
    "knowledge_entries",
];

/// The tables recovery may read.
pub open spec fn recovery_read_table(t: Seq<char>) -> bool {
    ||| t == "runs"@
    ||| t == "turns"@
    ||| t == "steps"@
    ||| t == "attempts"@
    ||| t == "protocol_states"@
    ||| t == "runtime_events"@
    ||| t == "checkpoints"@
    ||| t == "effect_records"@
    ||| t == "evidence"@
    ||| t == "work_nodes"@
}

/// A recovery refusal.
#[derive(Debug, Clone, PartialEq, Eq)]
pub enum RecoveryError {
    /// A generation-stale actor tried to act on the current run.
    StaleGeneration {
        /// Generation the actor carried.
        observed: u64,
        /// Generation the run holds.
        current: u64,
    },
    /// The run does not exist for this tenant.
    NotFound {
        /// Run identity.
        id: String,
    },
    /// A runtime transition or store failure, with the public code it carries.
    Runtime {
        /// The runtime failure's public error code.
        code: String,
        /// What failed.
        detail: String,
    },
    /// An effect-ledger failure.
    Effects(String),
    /// A database failure.
    Database(String),
}

/// The public error code a recovery refusal maps to.
pub open spec fn recovery_error_code(e: RecoveryError) -> Seq<char> {
    match e {
        RecoveryError::StaleGeneration { .. } => "FENCED_STALE_GENERATION"@,
        RecoveryError::NotFound { .. } => "NOT_FOUND"@,
        RecoveryError::Runtime { code, .. } => code@,
        RecoveryError::Effects(_) => "INTERNAL"@,
        RecoveryError::Database(_) => "INTERNAL"@,
    }
}

impl RecoveryError {
    /// The public error code this refusal maps to.
    pub fn code(&self) -> (s: &str)
        ensures
            s@ == recovery_error_code(*self),
    {
        match self {
            RecoveryError::StaleGeneration { .. } => "FENCED_STALE_GENERATION",
            RecoveryError::NotFound { .. } => "NOT_FOUND",
            RecoveryError::Runtime { code, .. } => code.as_str(),
            RecoveryError::Effects(_) => "INTERNAL",
            RecoveryError::Database(_) => "INTERNAL",
        }
    }
}

/// Whether a table name may be read during recovery.
pub fn is_recovery_read_table(table: &str) -> (r: bool)
    ensures
        r == recovery_read_table(table@),
{
    str_eq(table, "runs") || str_eq(table, "turns") || str_eq(table, "steps") || str_eq(table, "attempts")
        || str_eq(table, "protocol_states") || str_eq(table, "runtime_events") || str_eq(table, "checkpoints")
        || str_eq(table, "effect_records") || str_eq(table, "evidence") || str_eq(table, "work_nodes")
}

} // verus!
