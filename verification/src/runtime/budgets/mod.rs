//! Runtime budgets, quotas and capacity control.
//!
//! A budget is explicit resource policy: `limits` per scope, `consumed` against them, and
//! a parent budget when the scope is nested. Two rules make autonomy bounded rather than
//! hopeful:
//!
//! 1. Child ≤ parent remaining. A child budget may never be granted more than its parent
//!    has left. A request beyond the parent is refused, never clamped silently.
//! 2. Exhaustion stops new work and touches nothing in flight. Consuming past a limit
//!    flips the budget to `exhausted` and refuses the charge; an effect already reserved
//!    or dispatched is left for the effect ledger to settle or reconcile.
//!
//! The `concurrency` meter is the same limit the orchestration capacity gate takes from
//! its caller, so the bound the orchestrator enforces and the bound policy states are one
//! number.

pub mod limits;
pub mod service;

use vstd::prelude::*;
use crate::runtime::budgets::limits::Meter;

verus! {

/// Repository path of this module's canonical owner.
pub const BUDGETS_OWNER: &'static str = "crates/server/src/runtime/budgets";

/// A budget refusal.
#[derive(Debug, Clone, PartialEq, Eq)]
pub enum BudgetError {
    /// The charge would exceed a limit; no work may start against this budget.
    Exhausted {
        /// Budget that ran out.
        budget_id: String,
        /// Meter that ran out.
        meter: Meter,
        /// Amount consumed.
        consumed: u64,
        /// The limit.
        limit: u64,
    },
    /// A child budget asked for more than its parent has left.
    ExceedsParent {
        /// Child budget being created.
        child: String,
        /// Parent budget.
        parent: String,
        /// Meter over-requested.
        meter: Meter,
        /// Requested allowance.
        requested: u64,
        /// Parent's remaining allowance.
        remaining: u64,
    },
    /// The budget does not exist for this tenant.
    NotFound {
        /// Budget identity.
        id: String,
    },
    /// The stored budget is malformed.
    Malformed {
        /// Budget identity.
        id: String,
        /// What is wrong.
        detail: String,
    },
    /// An event-store failure while recording usage.
    Event(String),
    /// A database failure.
    Database(String),
}

/// The public error code a budget refusal maps to.
pub open spec fn budget_error_code(e: BudgetError) -> Seq<char> {
    match e {
        BudgetError::Exhausted { .. } => "BUDGET_EXHAUSTED"@,
        BudgetError::ExceedsParent { .. } => "VALIDATION_BOUNDS"@,
        BudgetError::NotFound { .. } => "NOT_FOUND"@,
        BudgetError::Malformed { .. } => "VALIDATION_SCHEMA"@,
        BudgetError::Event(_) => "INTERNAL"@,
        BudgetError::Database(_) => "INTERNAL"@,
    }
}

impl BudgetError {
    /// The public error code this refusal maps to.
    pub fn code(&self) -> (s: &'static str)
        ensures
            s@ == budget_error_code(*self),
    {
        match self {
            BudgetError::Exhausted { .. } => "BUDGET_EXHAUSTED",
            BudgetError::ExceedsParent { .. } => "VALIDATION_BOUNDS",
            BudgetError::NotFound { .. } => "NOT_FOUND",
            BudgetError::Malformed { .. } => "VALIDATION_SCHEMA",
            BudgetError::Event(_) => "INTERNAL",
            BudgetError::Database(_) => "INTERNAL",
        }
    }
}

} // verus!
