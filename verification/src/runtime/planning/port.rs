//! The workspace port the compiler validates against and commits through.
//!
//! The graph-backed implementation applies a compiled plan through the graph's
//! event-emitting transaction, so there is exactly one graph mutation path. When none is
//! wired, the default port fails closed.

use vstd::prelude::*;
use crate::text::owned;
use crate::runtime::planning::PlanError;
use crate::runtime::planning::compile::{CompiledPlan, PlanGraphSnapshot};

verus! {

/// The owner of the event-emitting graph transaction.
pub const PLAN_GRAPH_OWNER: &'static str = "CORE-005";

/// What an applied plan produced.
#[derive(Debug, Clone, PartialEq, Eq)]
pub struct PlanCommitOutcome {
    /// The workspace graph revision after the transaction.
    pub revision: u64,
    /// How many graph changes were applied.
    pub applied: usize,
    /// The events the transaction committed, in order.
    pub event_ids: Vec<String>,
}

/// The default port: plan application belongs to the graph transaction's owner. It never
/// fabricates success.
#[derive(Debug, Clone, Copy, Default)]
pub struct UnavailablePlanWorkspace;

/// The refusal of an unwired workspace port.
pub open spec fn unwired_refusal(e: PlanError) -> bool {
    e matches PlanError::Workspace { detail } && detail@ == "the WorkGraph port is owned by CORE-005"@
}

impl UnavailablePlanWorkspace {
    /// Reading the graph through an unwired port fails closed.
    pub fn snapshot(&self, workspace_id: &str) -> (r: Result<PlanGraphSnapshot, PlanError>)
        ensures
            r matches Err(e) && unwired_refusal(e),
    {
        Err(PlanError::Workspace { detail: owned("the WorkGraph port is owned by CORE-005") })
    }

    /// Applying a plan through an unwired port fails closed.
    pub fn apply(&self, plan: CompiledPlan) -> (r: Result<PlanCommitOutcome, PlanError>)
        ensures
            r matches Err(e) && unwired_refusal(e),
    {
        Err(PlanError::Workspace { detail: owned("the WorkGraph port is owned by CORE-005") })
    }
}

} // verus!
