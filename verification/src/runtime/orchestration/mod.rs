//! Execution orchestration over the work graph: which ready work may start, how much of
//! it may run at once, what a cancellation does to a subtree and when a join completes.
//!
//! Four invariants hold here:
//!
//! 1. No dependent work starts before its prerequisites: a node whose `depends_on`
//!    prerequisite is not `done` is never selected, even with a run already queued.
//! 2. Bounded concurrency: concurrent work is capped by the budget's `concurrency` limit,
//!    counted from durable run state; a saturated limit is reported, never exceeded.
//! 3. Cancellation is idempotent and propagates: cancelling a node cancels its subtree
//!    and blocks its dependents, computed from one snapshot.
//! 4. Joins complete once: a parent waiting on its children is released exactly when the
//!    last child is done, and blocked if a child failed or was cancelled.

pub mod cancel;
pub mod capacity;
pub mod graph;
pub mod queue;
pub mod service;

use vstd::prelude::*;
use crate::text::str_eq;

verus! {

/// Repository path of this module's canonical owner.
pub const ORCHESTRATION_OWNER: &'static str = "crates/server/src/runtime/orchestration";

/// A node ready to start.
pub const READY: &'static str = "ready";
/// A node that cannot progress.
pub const BLOCKED: &'static str = "blocked";
/// A node being worked.
pub const IN_PROGRESS: &'static str = "in_progress";
/// A node waiting on its children.
pub const WAITING: &'static str = "waiting";
/// A node under verification.
pub const VERIFYING: &'static str = "verifying";
/// A finished node.
pub const DONE: &'static str = "done";
/// A failed node.
pub const FAILED: &'static str = "failed";
/// A cancelled node.
pub const CANCELLED: &'static str = "cancelled";
/// A node not yet released.
pub const DRAFT: &'static str = "draft";

/// Whether a node status is final.
pub open spec fn node_terminal(s: Seq<char>) -> bool {
    s == "done"@ || s == "failed"@ || s == "cancelled"@
}

/// Whether a run status is final.
pub open spec fn run_terminal(s: Seq<char>) -> bool {
    s == "SUCCEEDED"@ || s == "FAILED"@ || s == "CANCELLED"@ || s == "BLOCKED_UNRECOVERABLE"@
}

/// Whether a node status is final.
pub fn is_terminal_node_status(status: &str) -> (r: bool)
    ensures
        r == node_terminal(status@),
{
    str_eq(status, "done") || str_eq(status, "failed") || str_eq(status, "cancelled")
}

/// Whether a run status is final.
pub fn is_terminal_run_status(status: &str) -> (r: bool)
    ensures
        r == run_terminal(status@),
{
    str_eq(status, "SUCCEEDED") || str_eq(status, "FAILED") || str_eq(status, "CANCELLED") || str_eq(
        status,
        "BLOCKED_UNRECOVERABLE",
    )
}

/// Whether a run status holds its execution slot: `RUNNING` or `VERIFYING`. A queued run
/// has not been admitted yet, and a parked or suspended one has released its slot.
pub fn is_active_run_status(status: &str) -> (r: bool)
    ensures
        r == crate::runtime::orchestration::graph::slot_run_status(status@),
{
    str_eq(status, "RUNNING") || str_eq(status, "VERIFYING")
}

/// An orchestration refusal.
#[derive(Debug, Clone, PartialEq, Eq)]
pub enum OrchestrationError {
    /// The work-graph port is not wired.
    PortUnavailable {
        /// Who owns the port.
        owner: String,
        /// What is missing.
        detail: String,
    },
    /// The concurrency budget is exhausted.
    CapacitySaturated {
        /// Slots in use.
        in_flight: usize,
        /// The limit.
        limit: usize,
    },
    /// A node cannot start before its prerequisite.
    PrerequisiteUnsatisfied {
        /// The node.
        node_id: String,
        /// The prerequisite.
        prerequisite_id: String,
        /// Its status.
        status: String,
    },
    /// The node lifecycle does not allow the change.
    IllegalNodeTransition {
        /// The node.
        node_id: String,
        /// Status it holds.
        from: String,
        /// Status requested.
        to: String,
    },
    /// The dependency graph has a cycle.
    DependencyCycle {
        /// A node of the cycle's component.
        node_id: String,
    },
    /// Another writer moved the graph.
    RevisionConflict {
        /// Workspace.
        workspace_id: String,
        /// Revision the change was computed against.
        expected: u64,
        /// Revision the graph holds.
        current: u64,
    },
    /// A row is not visible in this tenant.
    NotFound {
        /// The kind of row.
        entity: String,
        /// Row id.
        id: String,
    },
    /// A run could not be dispatched.
    NotDispatchable {
        /// Run id.
        run_id: String,
        /// Why.
        reason: String,
    },
    /// A runtime failure, with the public code it carries.
    Runtime {
        /// The runtime failure's public error code.
        code: String,
        /// What failed.
        detail: String,
    },
    /// A dispatch failure.
    Scheduler(String),
    /// An identity could not be parsed.
    Core(String),
    /// A database failure.
    Database(String),
    /// An event-store failure.
    Event(String),
}

/// The public error code of an orchestration refusal.
pub open spec fn orchestration_error_code(e: OrchestrationError) -> Seq<char> {
    match e {
        OrchestrationError::PortUnavailable { .. } => "INTERNAL"@,
        OrchestrationError::CapacitySaturated { .. } => "BUDGET_EXHAUSTED"@,
        OrchestrationError::PrerequisiteUnsatisfied { .. } => "CONFLICT_STATE"@,
        OrchestrationError::IllegalNodeTransition { .. } => "RUNTIME_ILLEGAL_TRANSITION"@,
        OrchestrationError::DependencyCycle { .. } => "VALIDATION_SCHEMA"@,
        OrchestrationError::RevisionConflict { .. } => "CONFLICT_REVISION"@,
        OrchestrationError::NotFound { .. } => "NOT_FOUND"@,
        OrchestrationError::NotDispatchable { .. } => "CONFLICT_STATE"@,
        OrchestrationError::Runtime { code, .. } => code@,
        OrchestrationError::Core(_) => "VALIDATION_SCHEMA"@,
        OrchestrationError::Scheduler(_) => "INTERNAL"@,
        OrchestrationError::Database(_) => "INTERNAL"@,
        OrchestrationError::Event(_) => "INTERNAL"@,
    }
}

impl OrchestrationError {
    /// The public error code this refusal maps to.
    pub fn code(&self) -> (s: &str)
        ensures
            s@ == orchestration_error_code(*self),
    {
        match self {
            OrchestrationError::PortUnavailable { .. } => "INTERNAL",
            OrchestrationError::CapacitySaturated { .. } => "BUDGET_EXHAUSTED",
            OrchestrationError::PrerequisiteUnsatisfied { .. } => "CONFLICT_STATE",
            OrchestrationError::IllegalNodeTransition { .. } => "RUNTIME_ILLEGAL_TRANSITION",
            OrchestrationError::DependencyCycle { .. } => "VALIDATION_SCHEMA",
            OrchestrationError::RevisionConflict { .. } => "CONFLICT_REVISION",
            OrchestrationError::NotFound { .. } => "NOT_FOUND",
            OrchestrationError::NotDispatchable { .. } => "CONFLICT_STATE",
            OrchestrationError::Runtime { code, .. } => code.as_str(),
            OrchestrationError::Core(_) => "VALIDATION_SCHEMA",
            OrchestrationError::Scheduler(_) => "INTERNAL",
            OrchestrationError::Database(_) => "INTERNAL",
            OrchestrationError::Event(_) => "INTERNAL",
        }
    }
}

} // verus!
