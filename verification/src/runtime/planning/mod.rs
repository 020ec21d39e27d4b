//! Plan compilation and validation.
//!
//! A model proposes a plan; the trusted runtime validates it and commits it. This module
//! owns the validation step: it turns the model's raw proposal into a typed, bounded,
//! validated compiled plan and hands that to the workspace port, which applies it as one
//! graph transaction. Validation runs before the port is called, so a malformed,
//! oversized, cyclic, over-authorized or stale proposal never reaches the graph.
//!
//! Enforced here, in the order the compiler checks them: a well-formed proposal with a
//! rationale and canonical kind/status/edge-kind values; the node bound; unique node and
//! edge identities and known endpoints; an acyclic `depends_on`/`parent_of` structure
//! including `parent_id` chains; a CompletionContract on every added node, its own or its
//! parent's; capability needs that narrow the proposer's projection; and a base revision
//! equal to the current graph revision.

pub mod wire;
pub mod compile;
pub mod port;
pub mod structure;
pub mod service;

use vstd::prelude::*;
use crate::text::{decimal_text, debug_quoted, owned, quoted, u64_text};

verus! {

/// A plan proposal that failed validation, or a workspace failure.
#[derive(Debug, Clone, PartialEq, Eq)]
pub enum PlanError {
    /// The proposal is not a canonical plan proposal: unknown kind or status, a duplicate
    /// identity, an unknown endpoint.
    Schema {
        /// What the proposal got wrong.
        detail: String,
    },
    /// The proposal touches more nodes than the effective bound.
    Bounds {
        /// Nodes the proposal adds or updates.
        requested: usize,
        /// The effective bound.
        limit: usize,
    },
    /// Applying the proposal would close a `depends_on`/`parent_of` cycle.
    Cycle {
        /// One endpoint of an edge on the cyclic part.
        from: String,
        /// The other endpoint.
        to: String,
    },
    /// An added node has no CompletionContract and no parent that provides one.
    MissingCompletionContract {
        /// The offending node's title.
        node: String,
    },
    /// A capability need is not a narrowing of the proposer's projection.
    CapabilityNotNarrowed {
        /// The rejected grant template.
        need: String,
    },
    /// A revision the proposal carries is not the current one.
    StaleBaseRevision {
        /// The revision the proposal carried.
        expected: u64,
        /// The current revision.
        current: u64,
    },
    /// The proposal carries no change at all.
    EmptyPlan,
    /// The graph snapshot, policy bound or graph mutation path failed.
    Workspace {
        /// The underlying failure.
        detail: String,
    },
}

/// A plan error by view.
pub enum PlanErrorView {
    /// A schema rejection with its detail.
    Schema(Seq<char>),
    /// The node bound was exceeded: requested, limit.
    Bounds(nat, nat),
    /// A cycle through an edge.
    Cycle(Seq<char>, Seq<char>),
    /// A node title with no contract to stand on.
    MissingCompletionContract(Seq<char>),
    /// A need that does not narrow the projection.
    CapabilityNotNarrowed(Seq<char>),
    /// A stale revision: expected, current.
    StaleBaseRevision(nat, nat),
    /// No change at all.
    EmptyPlan,
    /// A workspace failure with its detail.
    Workspace(Seq<char>),
}

/// The view of a plan error.
pub open spec fn plan_error_view(e: PlanError) -> PlanErrorView {
    match e {
        PlanError::Schema { detail } => PlanErrorView::Schema(detail@),
        PlanError::Bounds { requested, limit } => PlanErrorView::Bounds(requested as nat, limit as nat),
        PlanError::Cycle { from, to } => PlanErrorView::Cycle(from@, to@),
        PlanError::MissingCompletionContract { node } => PlanErrorView::MissingCompletionContract(node@),
        PlanError::CapabilityNotNarrowed { need } => PlanErrorView::CapabilityNotNarrowed(need@),
        PlanError::StaleBaseRevision { expected, current } => PlanErrorView::StaleBaseRevision(expected as nat, current as nat),
        PlanError::EmptyPlan => PlanErrorView::EmptyPlan,
        PlanError::Workspace { detail } => PlanErrorView::Workspace(detail@),
    }
}

/// The detail of a schema rejection, if `e` is one.
pub open spec fn schema_detail(e: PlanError) -> Option<Seq<char>> {
    match e {
        PlanError::Schema { detail } => Some(detail@),
        _ => None,
    }
}

/// The public error code of a plan error.
pub open spec fn plan_error_code(e: PlanError) -> Seq<char> {
    match e {
        PlanError::Bounds { .. } => "VALIDATION_BOUNDS"@,
        PlanError::CapabilityNotNarrowed { .. } => "CAPABILITY_DENIED"@,
        PlanError::StaleBaseRevision { .. } => "CONFLICT_REVISION"@,
        PlanError::Schema { .. } => "VALIDATION_SCHEMA"@,
        PlanError::Cycle { .. } => "VALIDATION_SCHEMA"@,
        PlanError::MissingCompletionContract { .. } => "VALIDATION_SCHEMA"@,
        PlanError::EmptyPlan => "VALIDATION_SCHEMA"@,
        PlanError::Workspace { .. } => "INTERNAL"@,
    }
}

/// The human-readable message of a plan error.
pub open spec fn plan_error_message(e: PlanError) -> Seq<char> {
    match e {
        PlanError::Schema { detail } => "plan schema: "@ + detail@,
        PlanError::Bounds { requested, limit } => "plan touches "@ + decimal_text(requested as nat) + " nodes, above the limit "@
            + decimal_text(limit as nat),
        PlanError::Cycle { from, to } => "the plan would close a cycle through "@ + from@ + " -> "@ + to@,
        PlanError::MissingCompletionContract { node } => "node "@ + debug_quoted(node@)
            + " has no CompletionContract and no parent that provides one"@,
        PlanError::CapabilityNotNarrowed { need } => "capability need "@ + need@
            + " is not a narrowing of the proposer's projection"@,
        PlanError::StaleBaseRevision { expected, current } => "base revision "@ + decimal_text(expected as nat)
            + " is not the current graph revision "@ + decimal_text(current as nat),
        PlanError::EmptyPlan => "the plan proposal carries no change"@,
        PlanError::Workspace { detail } => "plan workspace error: "@ + detail@,
    }
}

impl PlanError {
    /// The public error code this rejection maps to.
    pub fn code(&self) -> (r: &'static str)
        ensures
            r@ == plan_error_code(*self),
    {
        match self {
            PlanError::Bounds { .. } => "VALIDATION_BOUNDS",
            PlanError::CapabilityNotNarrowed { .. } => "CAPABILITY_DENIED",
            PlanError::StaleBaseRevision { .. } => "CONFLICT_REVISION",
            PlanError::Schema { .. } => "VALIDATION_SCHEMA",
            PlanError::Cycle { .. } => "VALIDATION_SCHEMA",
            PlanError::MissingCompletionContract { .. } => "VALIDATION_SCHEMA",
            PlanError::EmptyPlan => "VALIDATION_SCHEMA",
            PlanError::Workspace { .. } => "INTERNAL",
        }
    }

    /// A schema rejection with a diagnostic.
    pub fn schema(detail: String) -> (r: PlanError)
        ensures
            r == (PlanError::Schema { detail }),
    {
        PlanError::Schema { detail }
    }

    /// Whether the rejection is a plan verdict, recorded on the audit trail, rather than
    /// an infrastructure failure.
    pub fn is_rejection(&self) -> (r: bool)
        ensures
            r == !(*self is Workspace),
    {
        match self {
            PlanError::Workspace { .. } => false,
            _ => true,
        }
    }

    /// The human-readable message.
    pub fn message(&self) -> (r: String)
        ensures
            r@ == plan_error_message(*self),
    {
        match self {
            PlanError::Schema { detail } => {
                let mut s = owned("plan schema: ");
                s.append(detail.as_str());
                s
            },
            PlanError::Bounds { requested, limit } => {
                let mut s = owned("plan touches ");
                s.append(u64_text(*requested as u64).as_str());
                s.append(" nodes, above the limit ");
                s.append(u64_text(*limit as u64).as_str());
                s
            },
            PlanError::Cycle { from, to } => {
                let mut s = owned("the plan would close a cycle through ");
                s.append(from.as_str());
                s.append(" -> ");
                s.append(to.as_str());
                s
            },
            PlanError::MissingCompletionContract { node } => {
                let mut s = owned("node ");
                s.append(quoted(node.as_str()).as_str());
                s.append(" has no CompletionContract and no parent that provides one");
                s
            },
            PlanError::CapabilityNotNarrowed { need } => {
                let mut s = owned("capability need ");
                s.append(need.as_str());
                s.append(" is not a narrowing of the proposer's projection");
                s
            },
            PlanError::StaleBaseRevision { expected, current } => {
                let mut s = owned("base revision ");
                s.append(u64_text(*expected).as_str());
                s.append(" is not the current graph revision ");
                s.append(u64_text(*current).as_str());
                s
            },
            PlanError::EmptyPlan => owned("the plan proposal carries no change"),
            PlanError::Workspace { detail } => {
                let mut s = owned("plan workspace error: ");
                s.append(detail.as_str());
                s
            },
        }
    }
}

/// The node bound that applies: the smallest `max_plan_nodes` of the policy rows, or the
/// default when there is none or it is negative.
pub fn effective_plan_limit(policy_minimum: Option<i32>) -> (r: usize)
    ensures
        r == match policy_minimum {
            Some(v) => if v >= 0 {
                v as usize
            } else {
                crate::runtime::planning::compile::DEFAULT_MAX_PLAN_NODES
            },
            None => crate::runtime::planning::compile::DEFAULT_MAX_PLAN_NODES,
        },
{
    match policy_minimum {
        Some(v) => if v >= 0 {
            v as usize
        } else {
            crate::runtime::planning::compile::DEFAULT_MAX_PLAN_NODES
        },
        None => crate::runtime::planning::compile::DEFAULT_MAX_PLAN_NODES,
    }
}

} // verus!
