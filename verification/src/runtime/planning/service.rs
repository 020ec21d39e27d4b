//! What the planning service reports of a compiled plan.

use vstd::prelude::*;
use crate::policy::lifecycle::string_views;
use crate::runtime::planning::compile::{CompiledNode, CompiledPlan, ContractSource, node_line, update_line, edge_line, removal_line};
use crate::runtime::planning::compile::{CompiledNodeUpdate, CompiledEdge, CompiledEdgeRemoval};

verus! {

/// What a compiled and committed plan produced.
#[derive(Debug, Clone, PartialEq)]
pub struct PlanOutcome {
    /// Proposal identity.
    pub proposal_id: String,
    /// The workspace graph revision after the transaction.
    pub revision: u64,
    /// How many graph changes were applied.
    pub applied: usize,
    /// The events the graph transaction committed, in order.
    pub event_ids: Vec<String>,
    /// Nodes created.
    pub nodes_added: usize,
    /// Nodes transitioned.
    pub nodes_updated: usize,
    /// Edges created.
    pub edges_added: usize,
    /// Edges removed.
    pub edges_removed: usize,
    /// Where each added node's CompletionContract came from, in proposal order.
    pub contract_sources: Vec<ContractSource>,
    /// The mutation set the plan compiled to.
    pub mutation_summary: Vec<String>,
}

/// A copy of a contract source, equal to it.
fn copy_source(c: &ContractSource) -> (r: ContractSource)
    ensures
        r == *c,
{
    match c {
        ContractSource::Own => ContractSource::Own,
        ContractSource::InheritedFrom { parent_id, created_in_plan } => ContractSource::InheritedFrom {
            parent_id: parent_id.clone(),
            created_in_plan: *created_in_plan,
        },
    }
}

/// The outcome a compiled plan reports before it is committed: its counts, its contract
/// sources and its mutation summary, at the base revision with no events yet.
pub fn compiled_outcome(compiled: &CompiledPlan) -> (r: PlanOutcome)
    requires
        compiled.nodes_add@.len() + compiled.nodes_update@.len() + compiled.edges_add@.len() + compiled.edges_remove@.len()
            <= usize::MAX,
    ensures
        r.proposal_id == compiled.proposal_id,
        r.revision == compiled.base_revision,
        r.applied == compiled.nodes_add@.len() + compiled.nodes_update@.len() + compiled.edges_add@.len()
            + compiled.edges_remove@.len(),
        r.event_ids@.len() == 0,
        r.nodes_added == compiled.nodes_add@.len(),
        r.nodes_updated == compiled.nodes_update@.len(),
        r.edges_added == compiled.edges_add@.len(),
        r.edges_removed == compiled.edges_remove@.len(),
        r.contract_sources@ == compiled.nodes_add@.map_values(|n: CompiledNode| n.contract_source),
        string_views(r.mutation_summary@) == compiled.nodes_add@.map_values(|n: CompiledNode| node_line(n))
            + compiled.nodes_update@.map_values(|u: CompiledNodeUpdate| update_line(u)) + compiled.edges_add@.map_values(
            |e: CompiledEdge| edge_line(e),
        ) + compiled.edges_remove@.map_values(|x: CompiledEdgeRemoval| removal_line(x)),
{
    let mut sources: Vec<ContractSource> = Vec::new();
    let mut i: usize = 0;
    while i < compiled.nodes_add.len()
        invariant
            i <= compiled.nodes_add@.len(),
            sources@ == compiled.nodes_add@.take(i as int).map_values(|n: CompiledNode| n.contract_source),
        decreases compiled.nodes_add@.len() - i,
    {
        sources.push(copy_source(&compiled.nodes_add[i].contract_source));
        proof {
            assert(compiled.nodes_add@.take(i + 1) =~= compiled.nodes_add@.take(i as int).push(compiled.nodes_add@[i as int]));
            assert(sources@ =~= compiled.nodes_add@.take(i + 1).map_values(|n: CompiledNode| n.contract_source));
        }
        i = i + 1;
    }
    proof {
        assert(compiled.nodes_add@.take(compiled.nodes_add@.len() as int) =~= compiled.nodes_add@);
    }
    PlanOutcome {
        proposal_id: compiled.proposal_id.clone(),
        revision: compiled.base_revision,
        applied: compiled.change_count(),
        event_ids: Vec::new(),
        nodes_added: compiled.nodes_add.len(),
        nodes_updated: compiled.nodes_update.len(),
        edges_added: compiled.edges_add.len(),
        edges_removed: compiled.edges_remove.len(),
        contract_sources: sources,
        mutation_summary: compiled.mutation_summary(),
    }
}

} // verus!
