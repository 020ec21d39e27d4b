//! Proposal compilation: bounds, identity, endpoints, acyclicity, CompletionContract
//! inheritance, capability narrowing and revision discipline.
//!
//! `compile` is a function of the raw proposal, the graph snapshot, the proposer's
//! projection, the effective node bound and the capability check's verdict. It writes
//! nothing: the order of the compiled plan's mutation lists, the recorded contract source
//! of every added node and the rejection it returns are all functions of those inputs,
//! which is what makes the accepted mutation set reproducible.

use vstd::prelude::*;
use crate::text::{copy_opt_string, debug_quoted, decimal_text, owned, quoted, str_eq, u64_text};
use crate::policy::lifecycle::string_views;
use crate::runtime::planning::{PlanError, PlanErrorView, plan_error_view};
use crate::runtime::orchestration::graph::{contains_str, has_id, str_views};
use crate::runtime::planning::structure::{arc_on_cycle, arc_views, arcs_acyclic, cycle_arc};
use crate::runtime::planning::wire::{
    edge_kind_name, edge_problem, first_problem, validate_raw, is_node_status, law_edge_kind_names_round_trip, acyclic_kind, node_kind_name, node_problem, node_status_name, raw_problem, EdgeKind, NodeKind, NodeStatus, RawEdge, RawEdgeRemoval, RawNode, RawNodeUpdate, RawPlanProposal,
};

verus! {

/// The bound used when a workspace has no policy row.
pub const DEFAULT_MAX_PLAN_NODES: usize = 25;

/// The work graph as the proposer observed it.
#[derive(Debug, Clone, PartialEq)]
pub struct PlanGraphSnapshot {
    /// Workspace the snapshot describes.
    pub workspace_id: String,
    /// The workspace graph revision the snapshot was taken at.
    pub revision: u64,
    /// Existing nodes, in the store's order.
    pub nodes: Vec<SnapshotNode>,
    /// Existing edges, in the store's order.
    pub edges: Vec<SnapshotEdge>,
}

impl PlanGraphSnapshot {
    /// An empty workspace at `revision`.
    pub fn empty(workspace_id: String, revision: u64) -> (r: Self)
        ensures
            r.workspace_id == workspace_id,
            r.revision == revision,
            r.nodes@.len() == 0,
            r.edges@.len() == 0,
    {
        PlanGraphSnapshot { workspace_id, revision, nodes: Vec::new(), edges: Vec::new() }
    }
}

/// One existing node as validation sees it.
#[derive(Debug, Clone, PartialEq)]
pub struct SnapshotNode {
    /// Node id.
    pub id: String,
    /// Existing parent, when the node has one.
    pub parent_id: Option<String>,
    /// The node's revision, for compare-and-set of updates.
    pub revision: u64,
    /// The node's CompletionContract, as compact JSON text.
    pub completion_contract: String,
}

/// One existing edge as validation sees it.
#[derive(Debug, Clone, PartialEq)]
pub struct SnapshotEdge {
    /// Edge id.
    pub id: String,
    /// Source node.
    pub from_node_id: String,
    /// Target node.
    pub to_node_id: String,
    /// Edge kind.
    pub kind: EdgeKind,
    /// The edge's revision, for compare-and-set of removals.
    pub revision: u64,
}

/// Who proposed a plan and the authority it was proposed under.
#[derive(Debug, Clone)]
pub struct PlanProposerProjection {
    /// The agent thread that proposed the plan, when a run proposed it.
    pub agent_thread_id: Option<String>,
    /// The proposer's capability projection grants, as compact JSON text: the set every
    /// need must narrow.
    pub grants: String,
    /// The `created_by` stamped on every created node, as compact JSON text.
    pub created_by: String,
}

/// Where an added node's CompletionContract comes from.
#[derive(Debug, Clone, PartialEq, Eq)]
pub enum ContractSource {
    /// The node carries its own contract.
    Own,
    /// The node inherits the contract of its parent.
    InheritedFrom {
        /// The parent whose contract the node inherits.
        parent_id: String,
        /// Whether that parent is also created by this plan.
        created_in_plan: bool,
    },
}

/// One node to create.
#[derive(Debug, Clone, PartialEq)]
pub struct CompiledNode {
    /// Proposal-local identity.
    pub draft_id: String,
    /// Node kind.
    pub kind: NodeKind,
    /// Title.
    pub title: String,
    /// Description.
    pub description: Option<String>,
    /// Existing parent.
    pub parent_id: Option<String>,
    /// Requested status; only `draft` applies, since the store creates nodes draft.
    pub status: NodeStatus,
    /// CompletionContract, as compact JSON text.
    pub completion_contract: String,
    /// Where the contract comes from.
    pub contract_source: ContractSource,
    /// Capability need templates, as a compact JSON array.
    pub capability_needs: String,
    /// Priority 0 to 3.
    pub priority: i16,
    /// Budget row reference.
    pub budget_id: Option<String>,
    /// Originating thread.
    pub thread_id: Option<String>,
}

/// One node status update.
#[derive(Debug, Clone, PartialEq)]
pub struct CompiledNodeUpdate {
    /// Existing node to transition.
    pub node_id: String,
    /// The revision the proposer observed.
    pub expected_revision: u64,
    /// The requested status.
    pub to: NodeStatus,
}

/// One edge to create between existing nodes.
#[derive(Debug, Clone, PartialEq)]
pub struct CompiledEdge {
    /// Source node.
    pub from_node_id: String,
    /// Target node.
    pub to_node_id: String,
    /// Edge kind.
    pub kind: EdgeKind,
}

/// One edge removal.
#[derive(Debug, Clone, PartialEq)]
pub struct CompiledEdgeRemoval {
    /// Existing edge to remove.
    pub edge_id: String,
    /// The revision the proposer observed.
    pub expected_revision: u64,
}

/// A validated mutation set ready to be applied as one graph transaction.
#[derive(Debug, Clone, PartialEq)]
pub struct CompiledPlan {
    /// Proposal identity.
    pub proposal_id: String,
    /// Originating run.
    pub run_id: Option<String>,
    /// Workspace the plan applies to.
    pub workspace_id: String,
    /// The revision the proposer observed: the compare-and-set key.
    pub base_revision: u64,
    /// The proposer's rationale.
    pub rationale: String,
    /// Nodes to create, in proposal order.
    pub nodes_add: Vec<CompiledNode>,
    /// Node transitions, in proposal order.
    pub nodes_update: Vec<CompiledNodeUpdate>,
    /// Edges to create, in proposal order.
    pub edges_add: Vec<CompiledEdge>,
    /// Edges to remove, in proposal order.
    pub edges_remove: Vec<CompiledEdgeRemoval>,
    /// The plan's grant templates, as a compact JSON array.
    pub capability_needs: String,
    /// The proposer agent thread, when a run proposed the plan.
    pub proposer_agent_thread_id: Option<String>,
    /// The proposer's grants the plan was checked against, as compact JSON text.
    pub proposer_grants: String,
    /// `created_by` stamped on every created node, as compact JSON text.
    pub created_by: String,
}

/// Whether a JSON value, as compact text, is present rather than empty: not `null`, an
/// empty object, an empty array or an empty string.
pub open spec fn json_present(t: Seq<char>) -> bool {
    !(t.len() == 0 || t == "null"@ || t == "{}"@ || t == "[]"@ || t == "\"\""@)
}

/// Whether a CompletionContract is present rather than empty.
pub fn has_contract(contract: &str) -> (r: bool)
    ensures
        r == json_present(contract@),
{
    !(contract.unicode_len() == 0 || str_eq(contract, "null") || str_eq(contract, "{}") || str_eq(contract, "[]") || str_eq(contract, "\"\""))
}

/// Capability needs as a JSON array: an array as is, `null` as the empty array, and any
/// other value as the array holding it.
pub open spec fn needs_array(t: Seq<char>) -> Seq<char> {
    if t == "null"@ {
        "[]"@
    } else if t.len() > 0 && t[0] == '[' {
        t
    } else {
        "["@ + t + "]"@
    }
}

/// Normalise capability needs to a JSON array so the compiled plan is shape-stable.
pub fn normalize_needs(needs: &str) -> (r: String)
    ensures
        r@ == needs_array(needs@),
{
    if str_eq(needs, "null") {
        return owned("[]");
    }
    if needs.unicode_len() > 0 && needs.get_char(0) == '[' {
        return owned(needs);
    }
    let mut r = owned("[");
    r.append(needs);
    r.append("]");
    r
}


/// The first problem `f` reports at an index from `k` below `n`.
pub open spec fn first_from(k: int, n: int, f: spec_fn(int) -> Option<PlanErrorView>) -> Option<PlanErrorView>
    decreases n - k,
{
    if k >= n {
        None
    } else {
        match f(k) {
            Some(p) => Some(p),
            None => first_from(k + 1, n, f),
        }
    }
}

/// The last existing node with id `id`: a later row overrides an earlier one.
pub open spec fn existing_node(nodes: Seq<SnapshotNode>, id: Seq<char>) -> Option<SnapshotNode>
    decreases nodes.len(),
{
    if nodes.len() == 0 {
        None
    } else if nodes.last().id@ == id {
        Some(nodes.last())
    } else {
        existing_node(nodes.drop_last(), id)
    }
}

/// The last existing edge with id `id`.
pub open spec fn existing_edge(edges: Seq<SnapshotEdge>, id: Seq<char>) -> Option<SnapshotEdge>
    decreases edges.len(),
{
    if edges.len() == 0 {
        None
    } else if edges.last().id@ == id {
        Some(edges.last())
    } else {
        existing_edge(edges.drop_last(), id)
    }
}

/// The last proposed node with id `id`.
pub open spec fn draft_node(nodes: Seq<RawNode>, id: Seq<char>) -> Option<RawNode>
    decreases nodes.len(),
{
    if nodes.len() == 0 {
        None
    } else if nodes.last().id@ == id {
        Some(nodes.last())
    } else {
        draft_node(nodes.drop_last(), id)
    }
}

/// The existing node with id `id`.
fn find_existing_node<'a>(nodes: &'a Vec<SnapshotNode>, id: &str) -> (r: Option<&'a SnapshotNode>)
    ensures
        match r {
            Some(n) => existing_node(nodes@, id@) == Some(*n),
            None => existing_node(nodes@, id@) is None,
        },
{
    let mut found: Option<&SnapshotNode> = None;
    let mut i: usize = 0;
    while i < nodes.len()
        invariant
            i <= nodes@.len(),
            match found {
                Some(n) => existing_node(nodes@.take(i as int), id@) == Some(*n),
                None => existing_node(nodes@.take(i as int), id@) is None,
            },
        decreases nodes@.len() - i,
    {
        proof {
            assert(nodes@.take(i + 1).drop_last() =~= nodes@.take(i as int));
        }
        if str_eq(nodes[i].id.as_str(), id) {
            found = Some(&nodes[i]);
        }
        i = i + 1;
    }
    proof {
        assert(nodes@.take(nodes@.len() as int) =~= nodes@);
    }
    found
}

/// The existing edge with id `id`.
fn find_existing_edge<'a>(edges: &'a Vec<SnapshotEdge>, id: &str) -> (r: Option<&'a SnapshotEdge>)
    ensures
        match r {
            Some(e) => existing_edge(edges@, id@) == Some(*e),
            None => existing_edge(edges@, id@) is None,
        },
{
    let mut found: Option<&SnapshotEdge> = None;
    let mut i: usize = 0;
    while i < edges.len()
        invariant
            i <= edges@.len(),
            match found {
                Some(e) => existing_edge(edges@.take(i as int), id@) == Some(*e),
                None => existing_edge(edges@.take(i as int), id@) is None,
            },
        decreases edges@.len() - i,
    {
        proof {
            assert(edges@.take(i + 1).drop_last() =~= edges@.take(i as int));
        }
        if str_eq(edges[i].id.as_str(), id) {
            found = Some(&edges[i]);
        }
        i = i + 1;
    }
    proof {
        assert(edges@.take(edges@.len() as int) =~= edges@);
    }
    found
}

/// The proposed node with id `id`.
fn find_draft_node<'a>(nodes: &'a Vec<RawNode>, id: &str) -> (r: Option<&'a RawNode>)
    ensures
        match r {
            Some(n) => draft_node(nodes@, id@) == Some(*n),
            None => draft_node(nodes@, id@) is None,
        },
{
    let mut found: Option<&RawNode> = None;
    let mut i: usize = 0;
    while i < nodes.len()
        invariant
            i <= nodes@.len(),
            match found {
                Some(n) => draft_node(nodes@.take(i as int), id@) == Some(*n),
                None => draft_node(nodes@.take(i as int), id@) is None,
            },
        decreases nodes@.len() - i,
    {
        proof {
            assert(nodes@.take(i + 1).drop_last() =~= nodes@.take(i as int));
        }
        if str_eq(nodes[i].id.as_str(), id) {
            found = Some(&nodes[i]);
        }
        i = i + 1;
    }
    proof {
        assert(nodes@.take(nodes@.len() as int) =~= nodes@);
    }
    found
}

/// The ids of proposed nodes.
pub open spec fn raw_node_ids(nodes: Seq<RawNode>) -> Seq<Seq<char>> {
    nodes.map_values(|n: RawNode| n.id@)
}

/// What is wrong with the identity of proposed node `i`, if anything: a duplicate of an
/// earlier one, or an id the workspace already has.
pub open spec fn node_id_problem(nodes: Seq<RawNode>, existing: Seq<SnapshotNode>, i: int) -> Option<PlanErrorView> {
    let id = nodes[i].id@;
    if has_id(raw_node_ids(nodes.take(i)), id) {
        Some(PlanErrorView::Schema("duplicate node id "@ + debug_quoted(id) + " in nodes_add"@))
    } else if existing_node(existing, id) is Some {
        Some(PlanErrorView::Schema("node id "@ + debug_quoted(id) + " already exists in the workspace"@))
    } else {
        None
    }
}

/// The proposal-local node ids, refusing duplicates and collisions with existing nodes.
fn unique_node_ids<'a>(raw: &'a RawPlanProposal, snapshot: &PlanGraphSnapshot) -> (r: Result<Vec<&'a str>, PlanError>)
    ensures
        match r {
            Ok(ids) => first_from(0, raw.nodes_add@.len() as int, |i: int| node_id_problem(raw.nodes_add@, snapshot.nodes@, i))
                is None && str_views(ids@) == raw_node_ids(raw.nodes_add@),
            Err(e) => first_from(0, raw.nodes_add@.len() as int, |i: int| node_id_problem(raw.nodes_add@, snapshot.nodes@, i))
                == Some(plan_error_view(e)),
        },
{
    let ghost f = |i: int| node_id_problem(raw.nodes_add@, snapshot.nodes@, i);
    let ghost n = raw.nodes_add@.len() as int;
    let mut seen: Vec<&str> = Vec::new();
    let mut i: usize = 0;
    while i < raw.nodes_add.len()
        invariant
            i <= raw.nodes_add@.len(),
            n == raw.nodes_add@.len(),
            f == (|i: int| node_id_problem(raw.nodes_add@, snapshot.nodes@, i)),
            first_from(0, n, f) == first_from(i as int, n, f),
            str_views(seen@) == raw_node_ids(raw.nodes_add@.take(i as int)),
        decreases raw.nodes_add@.len() - i,
    {
        let id = raw.nodes_add[i].id.as_str();
        if contains_str(&seen, id) {
            let mut detail = owned("duplicate node id ");
            detail.append(quoted(id).as_str());
            detail.append(" in nodes_add");
            return Err(PlanError::Schema { detail });
        }
        if find_existing_node(&snapshot.nodes, id).is_some() {
            let mut detail = owned("node id ");
            detail.append(quoted(id).as_str());
            detail.append(" already exists in the workspace");
            return Err(PlanError::Schema { detail });
        }
        let ghost before = seen@;
        seen.push(id);
        proof {
            assert(raw.nodes_add@.take(i + 1) =~= raw.nodes_add@.take(i as int).push(raw.nodes_add@[i as int]));
            assert(str_views(seen@) =~= str_views(before).push(id@));
        }
        i = i + 1;
    }
    proof {
        assert(raw.nodes_add@.take(n) =~= raw.nodes_add@);
    }
    Ok(seen)
}

/// The ids of proposed edges.
pub open spec fn raw_edge_ids(edges: Seq<RawEdge>) -> Seq<Seq<char>> {
    edges.map_values(|e: RawEdge| e.id@)
}

/// What is wrong with the identity of proposed edge `i`, if anything.
pub open spec fn edge_id_problem(edges: Seq<RawEdge>, existing: Seq<SnapshotEdge>, i: int) -> Option<PlanErrorView> {
    let id = edges[i].id@;
    if has_id(raw_edge_ids(edges.take(i)), id) {
        Some(PlanErrorView::Schema("duplicate edge id "@ + debug_quoted(id) + " in edges_add"@))
    } else if existing_edge(existing, id) is Some {
        Some(PlanErrorView::Schema("edge id "@ + debug_quoted(id) + " already exists in the workspace"@))
    } else {
        None
    }
}

/// Refuse duplicate edge ids and collisions with existing edges.
fn unique_edge_ids(raw: &RawPlanProposal, snapshot: &PlanGraphSnapshot) -> (r: Result<(), PlanError>)
    ensures
        match r {
            Ok(()) => first_from(0, raw.edges_add@.len() as int, |i: int| edge_id_problem(raw.edges_add@, snapshot.edges@, i))
                is None,
            Err(e) => first_from(0, raw.edges_add@.len() as int, |i: int| edge_id_problem(raw.edges_add@, snapshot.edges@, i))
                == Some(plan_error_view(e)),
        },
{
    let ghost f = |i: int| edge_id_problem(raw.edges_add@, snapshot.edges@, i);
    let ghost n = raw.edges_add@.len() as int;
    let mut seen: Vec<&str> = Vec::new();
    let mut i: usize = 0;
    while i < raw.edges_add.len()
        invariant
            i <= raw.edges_add@.len(),
            n == raw.edges_add@.len(),
            f == (|i: int| edge_id_problem(raw.edges_add@, snapshot.edges@, i)),
            first_from(0, n, f) == first_from(i as int, n, f),
            str_views(seen@) == raw_edge_ids(raw.edges_add@.take(i as int)),
        decreases raw.edges_add@.len() - i,
    {
        let id = raw.edges_add[i].id.as_str();
        if contains_str(&seen, id) {
            let mut detail = owned("duplicate edge id ");
            detail.append(quoted(id).as_str());
            detail.append(" in edges_add");
            return Err(PlanError::Schema { detail });
        }
        if find_existing_edge(&snapshot.edges, id).is_some() {
            let mut detail = owned("edge id ");
            detail.append(quoted(id).as_str());
            detail.append(" already exists in the workspace");
            return Err(PlanError::Schema { detail });
        }
        let ghost before = seen@;
        seen.push(id);
        proof {
            assert(raw.edges_add@.take(i + 1) =~= raw.edges_add@.take(i as int).push(raw.edges_add@[i as int]));
            assert(str_views(seen@) =~= str_views(before).push(id@));
        }
        i = i + 1;
    }
    Ok(())
}


/// What is wrong with proposed update `i`, if anything: a node updated twice, an unknown
/// node, a stale revision or an unknown status.
pub open spec fn update_problem_at(updates: Seq<RawNodeUpdate>, existing: Seq<SnapshotNode>, i: int) -> Option<PlanErrorView> {
    let u = updates[i];
    if has_id(updates.take(i).map_values(|x: RawNodeUpdate| x.node_id@), u.node_id@) {
        Some(PlanErrorView::Schema("node "@ + debug_quoted(u.node_id@) + " is updated more than once"@))
    } else if existing_node(existing, u.node_id@) is None {
        Some(PlanErrorView::Schema("node update references unknown node "@ + debug_quoted(u.node_id@)))
    } else if existing_node(existing, u.node_id@)->0.revision != u.expected_revision {
        Some(PlanErrorView::StaleBaseRevision(u.expected_revision as nat, existing_node(existing, u.node_id@)->0.revision as nat))
    } else if !is_node_status(u.to@) {
        Some(PlanErrorView::Schema("unknown WorkNode status "@ + debug_quoted(u.to@)))
    } else {
        None
    }
}

/// Whether `c` is the compiled form of update `u`.
pub open spec fn compiles_update(u: RawNodeUpdate, c: CompiledNodeUpdate) -> bool {
    c.node_id@ == u.node_id@ && c.expected_revision == u.expected_revision && node_status_name(c.to) == u.to@
}

/// Resolve node updates against the snapshot.
fn resolve_updates(raw: &RawPlanProposal, snapshot: &PlanGraphSnapshot) -> (r: Result<Vec<CompiledNodeUpdate>, PlanError>)
    ensures
        match r {
            Ok(v) => first_from(0, raw.nodes_update@.len() as int, |i: int| update_problem_at(raw.nodes_update@, snapshot.nodes@, i))
                is None && v@.len() == raw.nodes_update@.len() && forall|k: int| 0 <= k < v@.len() ==> compiles_update(
                raw.nodes_update@[k],
                #[trigger] v@[k],
            ),
            Err(e) => first_from(0, raw.nodes_update@.len() as int, |i: int| update_problem_at(raw.nodes_update@, snapshot.nodes@, i))
                == Some(plan_error_view(e)),
        },
{
    let ghost f = |i: int| update_problem_at(raw.nodes_update@, snapshot.nodes@, i);
    let ghost n = raw.nodes_update@.len() as int;
    let mut seen: Vec<&str> = Vec::new();
    let mut updates: Vec<CompiledNodeUpdate> = Vec::new();
    let mut i: usize = 0;
    while i < raw.nodes_update.len()
        invariant
            i <= raw.nodes_update@.len(),
            n == raw.nodes_update@.len(),
            f == (|i: int| update_problem_at(raw.nodes_update@, snapshot.nodes@, i)),
            first_from(0, n, f) == first_from(i as int, n, f),
            str_views(seen@) == raw.nodes_update@.take(i as int).map_values(|x: RawNodeUpdate| x.node_id@),
            updates@.len() == i,
            forall|k: int| 0 <= k < i ==> compiles_update(raw.nodes_update@[k], #[trigger] updates@[k]),
        decreases raw.nodes_update@.len() - i,
    {
        let update = &raw.nodes_update[i];
        let id = update.node_id.as_str();
        if contains_str(&seen, id) {
            let mut detail = owned("node ");
            detail.append(quoted(id).as_str());
            detail.append(" is updated more than once");
            return Err(PlanError::Schema { detail });
        }
        let node = match find_existing_node(&snapshot.nodes, id) {
            Some(node) => node,
            None => {
                let mut detail = owned("node update references unknown node ");
                detail.append(quoted(id).as_str());
                return Err(PlanError::Schema { detail });
            },
        };
        if node.revision != update.expected_revision {
            return Err(PlanError::StaleBaseRevision { expected: update.expected_revision, current: node.revision });
        }
        let to = match NodeStatus::parse(update.to.as_str()) {
            Ok(to) => to,
            Err(e) => {
                return Err(e);
            },
        };
        updates.push(CompiledNodeUpdate { node_id: update.node_id.clone(), expected_revision: update.expected_revision, to });
        let ghost before = seen@;
        seen.push(id);
        proof {
            assert(raw.nodes_update@.take(i + 1) =~= raw.nodes_update@.take(i as int).push(raw.nodes_update@[i as int]));
            assert(str_views(seen@) =~= str_views(before).push(id@));
        }
        i = i + 1;
    }
    Ok(updates)
}

/// What is wrong with proposed removal `i`, if anything: an edge removed twice, an
/// unknown edge or a stale revision.
pub open spec fn removal_problem_at(removals: Seq<RawEdgeRemoval>, existing: Seq<SnapshotEdge>, i: int) -> Option<PlanErrorView> {
    let r = removals[i];
    if has_id(removals.take(i).map_values(|x: RawEdgeRemoval| x.edge_id@), r.edge_id@) {
        Some(PlanErrorView::Schema("edge "@ + debug_quoted(r.edge_id@) + " is removed more than once"@))
    } else if existing_edge(existing, r.edge_id@) is None {
        Some(PlanErrorView::Schema("edge removal references unknown edge "@ + debug_quoted(r.edge_id@)))
    } else if existing_edge(existing, r.edge_id@)->0.revision != r.expected_revision {
        Some(PlanErrorView::StaleBaseRevision(r.expected_revision as nat, existing_edge(existing, r.edge_id@)->0.revision as nat))
    } else {
        None
    }
}

/// Resolve edge removals against the snapshot.
fn resolve_removals(raw: &RawPlanProposal, snapshot: &PlanGraphSnapshot) -> (r: Result<Vec<CompiledEdgeRemoval>, PlanError>)
    ensures
        match r {
            Ok(v) => first_from(0, raw.edges_remove@.len() as int, |i: int| removal_problem_at(raw.edges_remove@, snapshot.edges@, i))
                is None && v@.len() == raw.edges_remove@.len() && forall|k: int| 0 <= k < v@.len() ==> (#[trigger] v@[k]).edge_id@
                == raw.edges_remove@[k].edge_id@ && v@[k].expected_revision == raw.edges_remove@[k].expected_revision,
            Err(e) => first_from(0, raw.edges_remove@.len() as int, |i: int| removal_problem_at(raw.edges_remove@, snapshot.edges@, i))
                == Some(plan_error_view(e)),
        },
{
    let ghost f = |i: int| removal_problem_at(raw.edges_remove@, snapshot.edges@, i);
    let ghost n = raw.edges_remove@.len() as int;
    let mut seen: Vec<&str> = Vec::new();
    let mut removals: Vec<CompiledEdgeRemoval> = Vec::new();
    let mut i: usize = 0;
    while i < raw.edges_remove.len()
        invariant
            i <= raw.edges_remove@.len(),
            n == raw.edges_remove@.len(),
            f == (|i: int| removal_problem_at(raw.edges_remove@, snapshot.edges@, i)),
            first_from(0, n, f) == first_from(i as int, n, f),
            str_views(seen@) == raw.edges_remove@.take(i as int).map_values(|x: RawEdgeRemoval| x.edge_id@),
            removals@.len() == i,
            forall|k: int| 0 <= k < i ==> (#[trigger] removals@[k]).edge_id@ == raw.edges_remove@[k].edge_id@
                && removals@[k].expected_revision == raw.edges_remove@[k].expected_revision,
        decreases raw.edges_remove@.len() - i,
    {
        let removal = &raw.edges_remove[i];
        let id = removal.edge_id.as_str();
        if contains_str(&seen, id) {
            let mut detail = owned("edge ");
            detail.append(quoted(id).as_str());
            detail.append(" is removed more than once");
            return Err(PlanError::Schema { detail });
        }
        let edge = match find_existing_edge(&snapshot.edges, id) {
            Some(edge) => edge,
            None => {
                let mut detail = owned("edge removal references unknown edge ");
                detail.append(quoted(id).as_str());
                return Err(PlanError::Schema { detail });
            },
        };
        if edge.revision != removal.expected_revision {
            return Err(PlanError::StaleBaseRevision { expected: removal.expected_revision, current: edge.revision });
        }
        removals.push(CompiledEdgeRemoval { edge_id: removal.edge_id.clone(), expected_revision: removal.expected_revision });
        let ghost before = seen@;
        seen.push(id);
        proof {
            assert(raw.edges_remove@.take(i + 1) =~= raw.edges_remove@.take(i as int).push(raw.edges_remove@[i as int]));
            assert(str_views(seen@) =~= str_views(before).push(id@));
        }
        i = i + 1;
    }
    Ok(removals)
}


/// Whether `id` names a proposed node or an existing one.
pub open spec fn known_node(raw: RawPlanProposal, snapshot: PlanGraphSnapshot, id: Seq<char>) -> bool {
    has_id(raw_node_ids(raw.nodes_add@), id) || existing_node(snapshot.nodes@, id) is Some
}

/// What is wrong with proposed node `i`'s parent, if anything: an unknown parent.
pub open spec fn parent_problem(raw: RawPlanProposal, snapshot: PlanGraphSnapshot, i: int) -> Option<PlanErrorView> {
    let n = raw.nodes_add@[i];
    match n.parent_id {
        Some(p) => if known_node(raw, snapshot, p@) {
            None
        } else {
            Some(PlanErrorView::Schema("node "@ + debug_quoted(n.id@) + " has unknown parent "@ + debug_quoted(p@)))
        },
        None => None,
    }
}

/// What is wrong with proposed edge `i`'s endpoints, if anything: an unknown node.
pub open spec fn endpoint_problem(raw: RawPlanProposal, snapshot: PlanGraphSnapshot, i: int) -> Option<PlanErrorView> {
    let e = raw.edges_add@[i];
    if !known_node(raw, snapshot, e.from_node_id@) {
        Some(PlanErrorView::Schema("edge "@ + debug_quoted(e.id@) + " references unknown node "@ + debug_quoted(e.from_node_id@)))
    } else if !known_node(raw, snapshot, e.to_node_id@) {
        Some(PlanErrorView::Schema("edge "@ + debug_quoted(e.id@) + " references unknown node "@ + debug_quoted(e.to_node_id@)))
    } else {
        None
    }
}

/// The first unknown parent or edge endpoint.
pub open spec fn endpoints_problem(raw: RawPlanProposal, snapshot: PlanGraphSnapshot) -> Option<PlanErrorView> {
    match first_from(0, raw.nodes_add@.len() as int, |i: int| parent_problem(raw, snapshot, i)) {
        Some(p) => Some(p),
        None => first_from(0, raw.edges_add@.len() as int, |i: int| endpoint_problem(raw, snapshot, i)),
    }
}

/// Whether `id` is a proposed node (among `proposed`) or an existing one.
fn is_known(proposed: &Vec<&str>, snapshot: &PlanGraphSnapshot, id: &str) -> (r: bool)
    ensures
        r == (has_id(str_views(proposed@), id@) || existing_node(snapshot.nodes@, id@) is Some),
{
    contains_str(proposed, id) || find_existing_node(&snapshot.nodes, id).is_some()
}

/// Every parent and added-edge endpoint must name a known node.
fn check_endpoints(raw: &RawPlanProposal, proposed: &Vec<&str>, snapshot: &PlanGraphSnapshot) -> (r: Result<(), PlanError>)
    requires
        str_views(proposed@) == raw_node_ids(raw.nodes_add@),
    ensures
        match r {
            Ok(()) => endpoints_problem(*raw, *snapshot) is None,
            Err(e) => endpoints_problem(*raw, *snapshot) == Some(plan_error_view(e)),
        },
{
    let ghost f = |i: int| parent_problem(*raw, *snapshot, i);
    let ghost g = |i: int| endpoint_problem(*raw, *snapshot, i);
    let ghost n = raw.nodes_add@.len() as int;
    let ghost m = raw.edges_add@.len() as int;
    let mut i: usize = 0;
    while i < raw.nodes_add.len()
        invariant
            i <= raw.nodes_add@.len(),
            n == raw.nodes_add@.len(),
            str_views(proposed@) == raw_node_ids(raw.nodes_add@),
            f == (|i: int| parent_problem(*raw, *snapshot, i)),
            first_from(0, n, f) == first_from(i as int, n, f),
        decreases raw.nodes_add@.len() - i,
    {
        let node = &raw.nodes_add[i];
        match &node.parent_id {
            Some(parent) => {
                if !is_known(proposed, snapshot, parent.as_str()) {
                    let mut detail = owned("node ");
                    detail.append(quoted(node.id.as_str()).as_str());
                    detail.append(" has unknown parent ");
                    detail.append(quoted(parent.as_str()).as_str());
                    return Err(PlanError::Schema { detail });
                }
            },
            None => {},
        }
        i = i + 1;
    }
    let mut i: usize = 0;
    while i < raw.edges_add.len()
        invariant
            i <= raw.edges_add@.len(),
            m == raw.edges_add@.len(),
            n == raw.nodes_add@.len(),
            str_views(proposed@) == raw_node_ids(raw.nodes_add@),
            f == (|i: int| parent_problem(*raw, *snapshot, i)),
            g == (|i: int| endpoint_problem(*raw, *snapshot, i)),
            first_from(0, n, f) is None,
            first_from(0, m, g) == first_from(i as int, m, g),
        decreases raw.edges_add@.len() - i,
    {
        let edge = &raw.edges_add[i];
        if !is_known(proposed, snapshot, edge.from_node_id.as_str()) {
            let mut detail = owned("edge ");
            detail.append(quoted(edge.id.as_str()).as_str());
            detail.append(" references unknown node ");
            detail.append(quoted(edge.from_node_id.as_str()).as_str());
            return Err(PlanError::Schema { detail });
        }
        if !is_known(proposed, snapshot, edge.to_node_id.as_str()) {
            let mut detail = owned("edge ");
            detail.append(quoted(edge.id.as_str()).as_str());
            detail.append(" references unknown node ");
            detail.append(quoted(edge.to_node_id.as_str()).as_str());
            return Err(PlanError::Schema { detail });
        }
        i = i + 1;
    }
    Ok(())
}

/// A contract source by view: `None` for the node's own, else the parent and whether it
/// is created in the plan.
pub open spec fn source_view(c: ContractSource) -> Option<(Seq<char>, bool)> {
    match c {
        ContractSource::Own => None,
        ContractSource::InheritedFrom { parent_id, created_in_plan } => Some((parent_id@, created_in_plan)),
    }
}

/// Where node `n`'s contract comes from, by view; `None` when it has none to stand on.
pub open spec fn expected_source(raw: RawPlanProposal, snapshot: PlanGraphSnapshot, n: RawNode) -> Option<Option<(Seq<char>, bool)>> {
    if json_present(n.completion_contract@) {
        Some(None)
    } else {
        match n.parent_id {
            Some(p) => match draft_node(raw.nodes_add@, p@) {
                Some(parent) => if json_present(parent.completion_contract@) {
                    Some(Some((p@, true)))
                } else {
                    None
                },
                None => match existing_node(snapshot.nodes@, p@) {
                    Some(parent) => if json_present(parent.completion_contract@) {
                        Some(Some((p@, false)))
                    } else {
                        None
                    },
                    None => None,
                },
            },
            None => None,
        }
    }
}

/// What is wrong with proposed node `i`'s contract, if anything.
pub open spec fn contract_problem(raw: RawPlanProposal, snapshot: PlanGraphSnapshot, i: int) -> Option<PlanErrorView> {
    if expected_source(raw, snapshot, raw.nodes_add@[i]) is None {
        Some(PlanErrorView::MissingCompletionContract(raw.nodes_add@[i].title@))
    } else {
        None
    }
}

/// Whether `c` is the compiled form of proposed node `n`.
pub open spec fn compiles_node(raw: RawPlanProposal, snapshot: PlanGraphSnapshot, n: RawNode, c: CompiledNode) -> bool {
    &&& c.draft_id@ == n.id@
    &&& node_kind_name(c.kind) == n.kind@
    &&& c.title@ == n.title@
    &&& c.description == n.description
    &&& c.parent_id == n.parent_id
    &&& match n.status {
        Some(st) => node_status_name(c.status) == st@,
        None => c.status == NodeStatus::Draft,
    }
    &&& c.completion_contract == n.completion_contract
    &&& expected_source(raw, snapshot, n) == Some(source_view(c.contract_source))
    &&& c.capability_needs@ == needs_array(n.capability_needs@)
    &&& c.priority == match n.priority {
        Some(p) => p,
        None => 1i16,
    }
    &&& c.budget_id == n.budget_id
    &&& c.thread_id == n.thread_id
}

/// Every member of a sequence without a first problem has no problem.
pub(crate) proof fn lemma_no_problem<T>(s: Seq<T>, f: spec_fn(T) -> Option<Seq<char>>, k: int)
    requires
        first_problem(s, f) is None,
        0 <= k < s.len(),
    ensures
        f(s[k]) is None,
    decreases s.len(),
{
    if k > 0 {
        lemma_no_problem(s.drop_first(), f, k - 1);
    }
}

/// Resolve every added node, recording where its CompletionContract comes from.
fn resolve_nodes(raw: &RawPlanProposal, snapshot: &PlanGraphSnapshot) -> (r: Result<Vec<CompiledNode>, PlanError>)
    requires
        raw_problem(*raw) is None,
    ensures
        match r {
            Ok(v) => first_from(0, raw.nodes_add@.len() as int, |i: int| contract_problem(*raw, *snapshot, i)) is None
                && v@.len() == raw.nodes_add@.len() && forall|k: int| 0 <= k < v@.len() ==> compiles_node(
                *raw,
                *snapshot,
                raw.nodes_add@[k],
                #[trigger] v@[k],
            ),
            Err(e) => first_from(0, raw.nodes_add@.len() as int, |i: int| contract_problem(*raw, *snapshot, i)) == Some(
                plan_error_view(e),
            ),
        },
{
    let ghost f = |i: int| contract_problem(*raw, *snapshot, i);
    let ghost n = raw.nodes_add@.len() as int;
    let mut nodes: Vec<CompiledNode> = Vec::new();
    let mut i: usize = 0;
    while i < raw.nodes_add.len()
        invariant
            i <= raw.nodes_add@.len(),
            n == raw.nodes_add@.len(),
            raw_problem(*raw) is None,
            f == (|i: int| contract_problem(*raw, *snapshot, i)),
            first_from(0, n, f) == first_from(i as int, n, f),
            nodes@.len() == i,
            forall|k: int| 0 <= k < i ==> compiles_node(*raw, *snapshot, raw.nodes_add@[k], #[trigger] nodes@[k]),
        decreases raw.nodes_add@.len() - i,
    {
        let node = &raw.nodes_add[i];
        proof {
            lemma_no_problem(raw.nodes_add@, |n: RawNode| node_problem(n), i as int);
        }
        let contract_source = if has_contract(node.completion_contract.as_str()) {
            ContractSource::Own
        } else {
            match &node.parent_id {
                Some(parent_id) => match find_draft_node(&raw.nodes_add, parent_id.as_str()) {
                    Some(parent) => {
                        if has_contract(parent.completion_contract.as_str()) {
                            ContractSource::InheritedFrom { parent_id: parent_id.clone(), created_in_plan: true }
                        } else {
                            return Err(PlanError::MissingCompletionContract { node: node.title.clone() });
                        }
                    },
                    None => match find_existing_node(&snapshot.nodes, parent_id.as_str()) {
                        Some(parent) => {
                            if has_contract(parent.completion_contract.as_str()) {
                                ContractSource::InheritedFrom { parent_id: parent_id.clone(), created_in_plan: false }
                            } else {
                                return Err(PlanError::MissingCompletionContract { node: node.title.clone() });
                            }
                        },
                        None => {
                            return Err(PlanError::MissingCompletionContract { node: node.title.clone() });
                        },
                    },
                },
                None => {
                    return Err(PlanError::MissingCompletionContract { node: node.title.clone() });
                },
            }
        };
        let kind = match NodeKind::parse(node.kind.as_str()) {
            Ok(k) => k,
            Err(e) => {
                return Err(e);
            },
        };
        let status = match &node.status {
            Some(st) => match NodeStatus::parse(st.as_str()) {
                Ok(s) => s,
                Err(e) => {
                    return Err(e);
                },
            },
            None => NodeStatus::Draft,
        };
        let priority: i16 = match node.priority {
            Some(p) => p,
            None => 1,
        };
        nodes.push(
            CompiledNode {
                draft_id: node.id.clone(),
                kind,
                title: node.title.clone(),
                description: copy_opt_string(&node.description),
                parent_id: copy_opt_string(&node.parent_id),
                status,
                completion_contract: node.completion_contract.clone(),
                contract_source,
                capability_needs: normalize_needs(node.capability_needs.as_str()),
                priority,
                budget_id: copy_opt_string(&node.budget_id),
                thread_id: copy_opt_string(&node.thread_id),
            },
        );
        i = i + 1;
    }
    Ok(nodes)
}


/// Whether an edge kind's name is one of the kinds that must stay acyclic.
pub open spec fn acyclic_name(s: Seq<char>) -> bool {
    s == "depends_on"@ || s == "parent_of"@
}

/// The `child -> parent` arc of a node with a parent.
pub open spec fn parent_arc(id: Seq<char>, parent: Option<String>) -> Option<(Seq<char>, Seq<char>)> {
    match parent {
        Some(p) => Some((id, p@)),
        None => None,
    }
}

/// The structure that must stay acyclic once the proposal is applied: every existing
/// `parent_id` link, the existing acyclic-kind edges not removed, the added acyclic-kind
/// edges and the added nodes' parent links.
pub open spec fn structure_arcs(raw: RawPlanProposal, snapshot: PlanGraphSnapshot, removed: Seq<Seq<char>>) -> Seq<(Seq<char>, Seq<char>)> {
    snapshot.nodes@.filter_map(|n: SnapshotNode| parent_arc(n.id@, n.parent_id)) + snapshot.edges@.filter_map(
        |e: SnapshotEdge|
            if acyclic_kind(e.kind) && !has_id(removed, e.id@) {
                Some((e.from_node_id@, e.to_node_id@))
            } else {
                None
            },
    ) + raw.edges_add@.filter_map(
        |e: RawEdge|
            if acyclic_name(e.kind@) {
                Some((e.from_node_id@, e.to_node_id@))
            } else {
                None
            },
    ) + raw.nodes_add@.filter_map(|n: RawNode| parent_arc(n.id@, n.parent_id))
}

/// Whether `e` refuses a cycle by naming an arc `from -> to` of `arcs` that lies on one.
pub open spec fn closes_cycle(arcs: Seq<(Seq<char>, Seq<char>)>, e: PlanError) -> bool {
    e matches PlanError::Cycle { from, to } && exists|j: int|
        0 <= j < arcs.len() && #[trigger] arcs[j] == (from@, to@) && arc_on_cycle(arcs, j)
}

/// The arc views of `v` followed by one more arc.
proof fn lemma_arc_push(v: Seq<(&str, &str)>, a: (&str, &str))
    ensures
        arc_views(v.push(a)) == arc_views(v).push((a.0@, a.1@)),
{
    assert(arc_views(v.push(a)) =~= arc_views(v).push((a.0@, a.1@)));
}

/// Detect whether applying the proposal would close a cycle in the acyclic structure.
fn detect_cycle(raw: &RawPlanProposal, snapshot: &PlanGraphSnapshot, removals: &Vec<CompiledEdgeRemoval>) -> (r: Result<(), PlanError>)
    requires
        raw_problem(*raw) is None,
    ensures
        r is Ok <==> arcs_acyclic(
            structure_arcs(*raw, *snapshot, removals@.map_values(|x: CompiledEdgeRemoval| x.edge_id@)),
        ),
        r matches Err(e) ==> closes_cycle(structure_arcs(*raw, *snapshot, removals@.map_values(|x: CompiledEdgeRemoval| x.edge_id@)), e),
{
    let ghost removed = removals@.map_values(|x: CompiledEdgeRemoval| x.edge_id@);
    let mut removed_ids: Vec<&str> = Vec::new();
    let mut i: usize = 0;
    while i < removals.len()
        invariant
            i <= removals@.len(),
            removed == removals@.map_values(|x: CompiledEdgeRemoval| x.edge_id@),
            str_views(removed_ids@) == removed.take(i as int),
        decreases removals@.len() - i,
    {
        let ghost before = removed_ids@;
        removed_ids.push(removals[i].edge_id.as_str());
        proof {
            assert(str_views(removed_ids@) =~= str_views(before).push(removed[i as int]));
            assert(removed.take(i + 1) =~= removed.take(i as int).push(removed[i as int]));
        }
        i = i + 1;
    }
    proof {
        assert(removed.take(removed.len() as int) =~= removed);
    }
    let ghost f1 = |n: SnapshotNode| parent_arc(n.id@, n.parent_id);
    let ghost f2 = |e: SnapshotEdge|
        if acyclic_kind(e.kind) && !has_id(removed, e.id@) {
            Some((e.from_node_id@, e.to_node_id@))
        } else {
            None
        };
    let ghost f3 = |e: RawEdge|
        if acyclic_name(e.kind@) {
            Some((e.from_node_id@, e.to_node_id@))
        } else {
            None
        };
    let ghost f4 = |n: RawNode| parent_arc(n.id@, n.parent_id);
    let mut arcs: Vec<(&str, &str)> = Vec::new();
    let mut i: usize = 0;
    proof {
        assert(arc_views(arcs@) =~= snapshot.nodes@.take(0).filter_map(f1));
    }
    while i < snapshot.nodes.len()
        invariant
            i <= snapshot.nodes@.len(),
            f1 == (|n: SnapshotNode| parent_arc(n.id@, n.parent_id)),
            arc_views(arcs@) == snapshot.nodes@.take(i as int).filter_map(f1),
        decreases snapshot.nodes@.len() - i,
    {
        let node = &snapshot.nodes[i];
        proof {
            assert(snapshot.nodes@.take(i + 1).drop_last() =~= snapshot.nodes@.take(i as int));
        }
        match &node.parent_id {
            Some(parent) => {
                let arc = (node.id.as_str(), parent.as_str());
                proof {
                    lemma_arc_push(arcs@, arc);
                }
                arcs.push(arc);
            },
            None => {},
        }
        i = i + 1;
    }
    let ghost a1 = arc_views(arcs@);
    proof {
        assert(snapshot.nodes@.take(snapshot.nodes@.len() as int) =~= snapshot.nodes@);
        assert(snapshot.edges@.take(0).filter_map(f2) =~= Seq::<(Seq<char>, Seq<char>)>::empty());
        assert(arc_views(arcs@) =~= a1 + snapshot.edges@.take(0).filter_map(f2));
    }
    let mut i: usize = 0;
    while i < snapshot.edges.len()
        invariant
            i <= snapshot.edges@.len(),
            f2 == (|e: SnapshotEdge|
                if acyclic_kind(e.kind) && !has_id(removed, e.id@) {
                    Some((e.from_node_id@, e.to_node_id@))
                } else {
                    None
                }),
            str_views(removed_ids@) == removed,
            arc_views(arcs@) == a1 + snapshot.edges@.take(i as int).filter_map(f2),
        decreases snapshot.edges@.len() - i,
    {
        let edge = &snapshot.edges[i];
        proof {
            assert(snapshot.edges@.take(i + 1).drop_last() =~= snapshot.edges@.take(i as int));
        }
        if edge.kind.is_acyclic_relation() && !contains_str(&removed_ids, edge.id.as_str()) {
            let arc = (edge.from_node_id.as_str(), edge.to_node_id.as_str());
            proof {
                lemma_arc_push(arcs@, arc);
            }
            arcs.push(arc);
        }
        i = i + 1;
    }
    let ghost a2 = arc_views(arcs@);
    proof {
        assert(snapshot.edges@.take(snapshot.edges@.len() as int) =~= snapshot.edges@);
        assert(raw.edges_add@.take(0).filter_map(f3) =~= Seq::<(Seq<char>, Seq<char>)>::empty());
        assert(arc_views(arcs@) =~= a2 + raw.edges_add@.take(0).filter_map(f3));
        reveal_strlit("depends_on");
        reveal_strlit("parent_of");
    }
    let mut i: usize = 0;
    while i < raw.edges_add.len()
        invariant
            i <= raw.edges_add@.len(),
            raw_problem(*raw) is None,
            f3 == (|e: RawEdge|
                if acyclic_name(e.kind@) {
                    Some((e.from_node_id@, e.to_node_id@))
                } else {
                    None
                }),
            arc_views(arcs@) == a2 + raw.edges_add@.take(i as int).filter_map(f3),
        decreases raw.edges_add@.len() - i,
    {
        let edge = &raw.edges_add[i];
        proof {
            assert(raw.edges_add@.take(i + 1).drop_last() =~= raw.edges_add@.take(i as int));
            lemma_no_problem(raw.edges_add@, |e: RawEdge| edge_problem(e), i as int);
        }
        match EdgeKind::parse(edge.kind.as_str()) {
            Ok(kind) => {
                proof {
                    reveal_strlit("depends_on");
                    reveal_strlit("parent_of");
                    law_edge_kind_names_round_trip(kind, EdgeKind::DependsOn);
                    law_edge_kind_names_round_trip(kind, EdgeKind::ParentOf);
                }
                if kind.is_acyclic_relation() {
                    let arc = (edge.from_node_id.as_str(), edge.to_node_id.as_str());
                    proof {
                        lemma_arc_push(arcs@, arc);
                    }
                    arcs.push(arc);
                }
            },
            Err(e) => {
                return Err(e);
            },
        }
        i = i + 1;
    }
    let ghost a3 = arc_views(arcs@);
    proof {
        assert(raw.edges_add@.take(raw.edges_add@.len() as int) =~= raw.edges_add@);
        assert(raw.nodes_add@.take(0).filter_map(f4) =~= Seq::<(Seq<char>, Seq<char>)>::empty());
        assert(arc_views(arcs@) =~= a3 + raw.nodes_add@.take(0).filter_map(f4));
    }
    let mut i: usize = 0;
    while i < raw.nodes_add.len()
        invariant
            i <= raw.nodes_add@.len(),
            f4 == (|n: RawNode| parent_arc(n.id@, n.parent_id)),
            arc_views(arcs@) == a3 + raw.nodes_add@.take(i as int).filter_map(f4),
        decreases raw.nodes_add@.len() - i,
    {
        let node = &raw.nodes_add[i];
        proof {
            assert(raw.nodes_add@.take(i + 1).drop_last() =~= raw.nodes_add@.take(i as int));
        }
        match &node.parent_id {
            Some(parent) => {
                let arc = (node.id.as_str(), parent.as_str());
                proof {
                    lemma_arc_push(arcs@, arc);
                }
                arcs.push(arc);
            },
            None => {},
        }
        i = i + 1;
    }
    proof {
        assert(raw.nodes_add@.take(raw.nodes_add@.len() as int) =~= raw.nodes_add@);
        assert(arc_views(arcs@) =~= structure_arcs(*raw, *snapshot, removed));
    }
    match cycle_arc(&arcs) {
        None => Ok(()),
        Some(j) => {
            let e = PlanError::Cycle { from: owned(arcs[j].0), to: owned(arcs[j].1) };
            proof {
                let av = arc_views(arcs@);
                assert(av[j as int] == (arcs@[j as int].0@, arcs@[j as int].1@));
                assert(closes_cycle(av, e));
            }
            Err(e)
        },
    }
}


/// What proposed node `i` asks that one graph transaction cannot express, if anything: a
/// status other than `draft`, or a parent created in the same plan.
pub open spec fn node_applicability_problem(raw: RawPlanProposal, i: int) -> Option<PlanErrorView> {
    let n = raw.nodes_add@[i];
    if n.status matches Some(st) && st@ != "draft"@ {
        Some(PlanErrorView::Schema("node "@ + debug_quoted(n.id@) + " requests status "@ + n.status->0@
            + "; a created node starts draft and a plan cannot transition a node whose id is generated inside the transaction"@))
    } else if n.parent_id matches Some(p) && has_id(raw_node_ids(raw.nodes_add@), p@) {
        Some(PlanErrorView::Schema("node "@ + debug_quoted(n.id@) + " references planned parent "@ + debug_quoted(n.parent_id->0@)
            + "; a plan cannot reference a node created in the same transaction"@))
    } else {
        None
    }
}

/// What proposed edge `i` asks that one graph transaction cannot express, if anything: an
/// endpoint created in the same plan.
pub open spec fn edge_applicability_problem(raw: RawPlanProposal, i: int) -> Option<PlanErrorView> {
    let e = raw.edges_add@[i];
    if has_id(raw_node_ids(raw.nodes_add@), e.from_node_id@) || has_id(raw_node_ids(raw.nodes_add@), e.to_node_id@) {
        Some(PlanErrorView::Schema("edge "@ + debug_quoted(e.id@) + " references a node created in the same transaction"@))
    } else {
        None
    }
}

/// The first reference one graph transaction cannot express: the store assigns a new
/// node's id inside the transaction, so a plan cannot name a node it creates.
pub open spec fn applicability_problem(raw: RawPlanProposal) -> Option<PlanErrorView> {
    match first_from(0, raw.nodes_add@.len() as int, |i: int| node_applicability_problem(raw, i)) {
        Some(p) => Some(p),
        None => first_from(0, raw.edges_add@.len() as int, |i: int| edge_applicability_problem(raw, i)),
    }
}

/// Refuse references a single graph transaction cannot express.
fn check_applicable_references(raw: &RawPlanProposal, proposed: &Vec<&str>) -> (r: Result<(), PlanError>)
    requires
        str_views(proposed@) == raw_node_ids(raw.nodes_add@),
    ensures
        match r {
            Ok(()) => applicability_problem(*raw) is None,
            Err(e) => applicability_problem(*raw) == Some(plan_error_view(e)),
        },
{
    let ghost f = |i: int| node_applicability_problem(*raw, i);
    let ghost g = |i: int| edge_applicability_problem(*raw, i);
    let ghost n = raw.nodes_add@.len() as int;
    let ghost m = raw.edges_add@.len() as int;
    proof {
        reveal_strlit("draft");
    }
    let mut i: usize = 0;
    while i < raw.nodes_add.len()
        invariant
            i <= raw.nodes_add@.len(),
            n == raw.nodes_add@.len(),
            str_views(proposed@) == raw_node_ids(raw.nodes_add@),
            f == (|i: int| node_applicability_problem(*raw, i)),
            first_from(0, n, f) == first_from(i as int, n, f),
        decreases raw.nodes_add@.len() - i,
    {
        let node = &raw.nodes_add[i];
        match &node.status {
            Some(status) => {
                if !str_eq(status.as_str(), "draft") {
                    let mut detail = owned("node ");
                    detail.append(quoted(node.id.as_str()).as_str());
                    detail.append(" requests status ");
                    detail.append(status.as_str());
                    detail.append(
                        "; a created node starts draft and a plan cannot transition a node whose id is generated inside the transaction",
                    );
                    return Err(PlanError::Schema { detail });
                }
            },
            None => {},
        }
        match &node.parent_id {
            Some(parent) => {
                if contains_str(proposed, parent.as_str()) {
                    let mut detail = owned("node ");
                    detail.append(quoted(node.id.as_str()).as_str());
                    detail.append(" references planned parent ");
                    detail.append(quoted(parent.as_str()).as_str());
                    detail.append("; a plan cannot reference a node created in the same transaction");
                    return Err(PlanError::Schema { detail });
                }
            },
            None => {},
        }
        i = i + 1;
    }
    let mut i: usize = 0;
    while i < raw.edges_add.len()
        invariant
            i <= raw.edges_add@.len(),
            m == raw.edges_add@.len(),
            n == raw.nodes_add@.len(),
            str_views(proposed@) == raw_node_ids(raw.nodes_add@),
            f == (|i: int| node_applicability_problem(*raw, i)),
            g == (|i: int| edge_applicability_problem(*raw, i)),
            first_from(0, n, f) is None,
            first_from(0, m, g) == first_from(i as int, m, g),
        decreases raw.edges_add@.len() - i,
    {
        let edge = &raw.edges_add[i];
        if contains_str(proposed, edge.from_node_id.as_str()) || contains_str(proposed, edge.to_node_id.as_str()) {
            let mut detail = owned("edge ");
            detail.append(quoted(edge.id.as_str()).as_str());
            detail.append(" references a node created in the same transaction");
            return Err(PlanError::Schema { detail });
        }
        i = i + 1;
    }
    Ok(())
}


/// `a` when it names a problem, else `b`.
pub open spec fn first_of(a: Option<PlanErrorView>, b: Option<PlanErrorView>) -> Option<PlanErrorView> {
    match a {
        Some(_) => a,
        None => b,
    }
}

/// The ids of the edges a proposal removes.
pub open spec fn removed_ids(raw: RawPlanProposal) -> Seq<Seq<char>> {
    raw.edges_remove@.map_values(|x: RawEdgeRemoval| x.edge_id@)
}

/// Whether the proposal carries no change at all.
pub open spec fn carries_nothing(raw: RawPlanProposal) -> bool {
    raw.nodes_add@.len() == 0 && raw.nodes_update@.len() == 0 && raw.edges_add@.len() == 0 && raw.edges_remove@.len() == 0
}

/// The first rule a proposal breaks before its structure is checked, in the order they
/// are checked: a malformed proposal, another workspace's snapshot, no change, duplicate
/// or colliding ids, the node bound, stale or unknown updates and removals, unknown
/// endpoints, and a node without a contract to stand on.
pub open spec fn early_problem(raw: RawPlanProposal, snapshot: PlanGraphSnapshot, limit: nat) -> Option<PlanErrorView> {
    let requested = raw.nodes_add@.len() + raw.nodes_update@.len();
    first_of(
        match raw_problem(raw) {
            Some(d) => Some(PlanErrorView::Schema(d)),
            None => None,
        },
        first_of(
            if snapshot.workspace_id@ != raw.workspace_id@ {
                Some(PlanErrorView::Workspace("the snapshot is for workspace "@ + snapshot.workspace_id@ + " but the proposal names "@
                    + raw.workspace_id@))
            } else {
                None
            },
            first_of(
                if carries_nothing(raw) {
                    Some(PlanErrorView::EmptyPlan)
                } else {
                    None
                },
                first_of(
                    first_from(0, raw.nodes_add@.len() as int, |i: int| node_id_problem(raw.nodes_add@, snapshot.nodes@, i)),
                    first_of(
                        first_from(0, raw.edges_add@.len() as int, |i: int| edge_id_problem(raw.edges_add@, snapshot.edges@, i)),
                        first_of(
                            if requested > limit {
                                Some(PlanErrorView::Bounds(requested, limit))
                            } else {
                                None
                            },
                            first_of(
                                first_from(
                                    0,
                                    raw.nodes_update@.len() as int,
                                    |i: int| update_problem_at(raw.nodes_update@, snapshot.nodes@, i),
                                ),
                                first_of(
                                    first_from(
                                        0,
                                        raw.edges_remove@.len() as int,
                                        |i: int| removal_problem_at(raw.edges_remove@, snapshot.edges@, i),
                                    ),
                                    first_of(
                                        endpoints_problem(raw, snapshot),
                                        first_from(0, raw.nodes_add@.len() as int, |i: int| contract_problem(raw, snapshot, i)),
                                    ),
                                ),
                            ),
                        ),
                    ),
                ),
            ),
        ),
    )
}

/// Whether `c` is the compiled form of proposed edge `e`.
pub open spec fn compiles_edge(e: RawEdge, c: CompiledEdge) -> bool {
    c.from_node_id == e.from_node_id && c.to_node_id == e.to_node_id && edge_kind_name(c.kind) == e.kind@
}

/// Whether `plan` is the compiled form of `raw` for `proposer`: every mutation in
/// proposal order, each added node with its contract source.
pub open spec fn compiles_plan(raw: RawPlanProposal, snapshot: PlanGraphSnapshot, proposer: PlanProposerProjection, plan: CompiledPlan) -> bool {
    &&& plan.proposal_id == raw.proposal_id
    &&& plan.run_id == raw.run_id
    &&& plan.workspace_id == raw.workspace_id
    &&& plan.base_revision == raw.base_revision
    &&& Some(plan.rationale) == raw.rationale
    &&& plan.nodes_add@.len() == raw.nodes_add@.len()
    &&& forall|k: int| 0 <= k < plan.nodes_add@.len() ==> compiles_node(raw, snapshot, raw.nodes_add@[k], #[trigger] plan.nodes_add@[k])
    &&& plan.nodes_update@.len() == raw.nodes_update@.len()
    &&& forall|k: int| 0 <= k < plan.nodes_update@.len() ==> compiles_update(raw.nodes_update@[k], #[trigger] plan.nodes_update@[k])
    &&& plan.edges_add@.len() == raw.edges_add@.len()
    &&& forall|k: int| 0 <= k < plan.edges_add@.len() ==> compiles_edge(raw.edges_add@[k], #[trigger] plan.edges_add@[k])
    &&& plan.edges_remove@.len() == raw.edges_remove@.len()
    &&& forall|k: int|
        0 <= k < plan.edges_remove@.len() ==> (#[trigger] plan.edges_remove@[k]).edge_id@ == raw.edges_remove@[k].edge_id@
            && plan.edges_remove@[k].expected_revision == raw.edges_remove@[k].expected_revision
    &&& plan.capability_needs@ == needs_array(raw.capability_needs@)
    &&& plan.proposer_agent_thread_id == proposer.agent_thread_id
    &&& plan.proposer_grants == proposer.grants
    &&& plan.created_by == proposer.created_by
}

/// A first problem that is absent means every index in range has none.
proof fn lemma_first_from_none(k: int, n: int, f: spec_fn(int) -> Option<PlanErrorView>, i: int)
    requires
        first_from(k, n, f) is None,
        k <= i < n,
    ensures
        f(i) is None,
    decreases n - k,
{
    if k < i {
        lemma_first_from_none(k + 1, n, f, i);
    }
}

/// A proposal that passes the early checks adds only new nodes: no added id names a node
/// the workspace already has, and no id is added twice.
pub proof fn law_added_nodes_are_new(raw: RawPlanProposal, snapshot: PlanGraphSnapshot, limit: nat)
    requires
        early_problem(raw, snapshot, limit) is None,
    ensures
        forall|k: int| 0 <= k < raw.nodes_add@.len() ==> existing_node(snapshot.nodes@, (#[trigger] raw.nodes_add@[k]).id@)
            is None,
        forall|j: int, k: int| 0 <= j < k < raw.nodes_add@.len() ==> (#[trigger] raw.nodes_add@[j]).id@ != (
        #[trigger] raw.nodes_add@[k]).id@,
{
    let f = |i: int| node_id_problem(raw.nodes_add@, snapshot.nodes@, i);
    assert(first_from(0, raw.nodes_add@.len() as int, f) is None);
    assert forall|k: int| 0 <= k < raw.nodes_add@.len() implies existing_node(
        snapshot.nodes@,
        (#[trigger] raw.nodes_add@[k]).id@,
    ) is None by {
        lemma_first_from_none(0, raw.nodes_add@.len() as int, f, k);
    }
    assert forall|j: int, k: int| 0 <= j < k < raw.nodes_add@.len() implies (#[trigger] raw.nodes_add@[j]).id@ != (
    #[trigger] raw.nodes_add@[k]).id@ by {
        lemma_first_from_none(0, raw.nodes_add@.len() as int, f, k);
        let ids = raw_node_ids(raw.nodes_add@.take(k));
        assert(ids[j] == raw.nodes_add@[j].id@);
        if raw.nodes_add@[j].id@ == raw.nodes_add@[k].id@ {
            assert(has_id(ids, raw.nodes_add@[k].id@));
        }
    }
}

/// Compile a raw model proposal into a validated mutation set, or refuse it with the
/// first rule it breaks. `capability_verdict` is the outcome of checking the plan's
/// capability needs (its own and its nodes') against the proposer's projection: it
/// decides after every structural rule and before the revision check.
pub fn compile(
    raw: &RawPlanProposal,
    snapshot: &PlanGraphSnapshot,
    proposer: &PlanProposerProjection,
    limit: usize,
    capability_verdict: Result<(), PlanError>,
) -> (r: Result<CompiledPlan, PlanError>)
    requires
        raw.nodes_add@.len() + raw.nodes_update@.len() <= usize::MAX,
    ensures
        early_problem(*raw, *snapshot, limit as nat) is Some ==> (r matches Err(e) && Some(plan_error_view(e)) == early_problem(
            *raw,
            *snapshot,
            limit as nat,
        )),
        early_problem(*raw, *snapshot, limit as nat) is None && !arcs_acyclic(structure_arcs(*raw, *snapshot, removed_ids(*raw)))
            ==> (r matches Err(e) && closes_cycle(structure_arcs(*raw, *snapshot, removed_ids(*raw)), e)),
        early_problem(*raw, *snapshot, limit as nat) is None && arcs_acyclic(structure_arcs(*raw, *snapshot, removed_ids(*raw)))
            && applicability_problem(*raw) is Some ==> (r matches Err(e) && Some(plan_error_view(e)) == applicability_problem(*raw)),
        early_problem(*raw, *snapshot, limit as nat) is None && arcs_acyclic(structure_arcs(*raw, *snapshot, removed_ids(*raw)))
            && applicability_problem(*raw) is None && capability_verdict is Err ==> r == Err::<CompiledPlan, PlanError>(
            capability_verdict->Err_0,
        ),
        early_problem(*raw, *snapshot, limit as nat) is None && arcs_acyclic(structure_arcs(*raw, *snapshot, removed_ids(*raw)))
            && applicability_problem(*raw) is None && capability_verdict is Ok && raw.base_revision != snapshot.revision ==> r
            == Err::<CompiledPlan, PlanError>(PlanError::StaleBaseRevision { expected: raw.base_revision, current: snapshot.revision }),
        early_problem(*raw, *snapshot, limit as nat) is None && arcs_acyclic(structure_arcs(*raw, *snapshot, removed_ids(*raw)))
            && applicability_problem(*raw) is None && capability_verdict is Ok && raw.base_revision == snapshot.revision ==> (r matches Ok(
            plan,
        ) && compiles_plan(*raw, *snapshot, *proposer, plan)),        r is Ok ==> forall|k: int| 0 <= k < raw.nodes_add@.len() ==> existing_node(
            snapshot.nodes@,
            (#[trigger] raw.nodes_add@[k]).id@,
        ) is None,
{
    match validate_raw(raw) {
        Ok(()) => {},
        Err(e) => {
            return Err(e);
        },
    }
    if !str_eq(snapshot.workspace_id.as_str(), raw.workspace_id.as_str()) {
        let mut detail = owned("the snapshot is for workspace ");
        detail.append(snapshot.workspace_id.as_str());
        detail.append(" but the proposal names ");
        detail.append(raw.workspace_id.as_str());
        return Err(PlanError::Workspace { detail });
    }
    if raw.nodes_add.len() == 0 && raw.nodes_update.len() == 0 && raw.edges_add.len() == 0 && raw.edges_remove.len() == 0 {
        return Err(PlanError::EmptyPlan);
    }
    let proposed = match unique_node_ids(raw, snapshot) {
        Ok(p) => p,
        Err(e) => {
            return Err(e);
        },
    };
    match unique_edge_ids(raw, snapshot) {
        Ok(()) => {},
        Err(e) => {
            return Err(e);
        },
    }
    let requested = raw.nodes_add.len() + raw.nodes_update.len();
    if requested > limit {
        return Err(PlanError::Bounds { requested, limit });
    }
    let updates = match resolve_updates(raw, snapshot) {
        Ok(u) => u,
        Err(e) => {
            return Err(e);
        },
    };
    let removals = match resolve_removals(raw, snapshot) {
        Ok(v) => v,
        Err(e) => {
            return Err(e);
        },
    };
    match check_endpoints(raw, &proposed, snapshot) {
        Ok(()) => {},
        Err(e) => {
            return Err(e);
        },
    }
    let nodes_add = match resolve_nodes(raw, snapshot) {
        Ok(n) => n,
        Err(e) => {
            return Err(e);
        },
    };
    proof {
        assert(removals@.map_values(|x: CompiledEdgeRemoval| x.edge_id@) =~= removed_ids(*raw));
    }
    match detect_cycle(raw, snapshot, &removals) {
        Ok(()) => {},
        Err(e) => {
            return Err(e);
        },
    }
    match check_applicable_references(raw, &proposed) {
        Ok(()) => {},
        Err(e) => {
            return Err(e);
        },
    }
    match capability_verdict {
        Ok(()) => {},
        Err(e) => {
            return Err(e);
        },
    }
    if raw.base_revision != snapshot.revision {
        return Err(PlanError::StaleBaseRevision { expected: raw.base_revision, current: snapshot.revision });
    }
    let mut edges_add: Vec<CompiledEdge> = Vec::new();
    let mut i: usize = 0;
    while i < raw.edges_add.len()
        invariant
            i <= raw.edges_add@.len(),
            raw_problem(*raw) is None,
            edges_add@.len() == i,
            forall|k: int| 0 <= k < i ==> compiles_edge(raw.edges_add@[k], #[trigger] edges_add@[k]),
        decreases raw.edges_add@.len() - i,
    {
        let edge = &raw.edges_add[i];
        proof {
            lemma_no_problem(raw.edges_add@, |e: RawEdge| edge_problem(e), i as int);
        }
        match EdgeKind::parse(edge.kind.as_str()) {
            Ok(kind) => {
                edges_add.push(CompiledEdge { from_node_id: edge.from_node_id.clone(), to_node_id: edge.to_node_id.clone(), kind });
            },
            Err(e) => {
                return Err(e);
            },
        }
        i = i + 1;
    }
    let rationale = match &raw.rationale {
        Some(r) => r.clone(),
        None => owned(""),
    };
    proof {
        law_added_nodes_are_new(*raw, *snapshot, limit as nat);
    }
    Ok(
        CompiledPlan {
            proposal_id: raw.proposal_id.clone(),
            run_id: copy_opt_string(&raw.run_id),
            workspace_id: raw.workspace_id.clone(),
            base_revision: raw.base_revision,
            rationale,
            nodes_add,
            nodes_update: updates,
            edges_add,
            edges_remove: removals,
            capability_needs: normalize_needs(raw.capability_needs.as_str()),
            proposer_agent_thread_id: copy_opt_string(&proposer.agent_thread_id),
            proposer_grants: proposer.grants.clone(),
            created_by: proposer.created_by.clone(),
        },
    )
}


/// The text of a boolean, as `Display` writes it.
pub open spec fn bool_text(b: bool) -> Seq<char> {
    if b {
        "true"@
    } else {
        "false"@
    }
}

/// The summary line of a node to create.
pub open spec fn node_line(n: CompiledNode) -> Seq<char> {
    "create "@ + n.draft_id@ + " kind="@ + node_kind_name(n.kind) + " status="@ + node_status_name(n.status) + " parent="@
        + match n.parent_id {
        Some(p) => p@,
        None => "-"@,
    } + " contract="@ + match n.contract_source {
        ContractSource::Own => "own"@,
        ContractSource::InheritedFrom { parent_id, created_in_plan } => "inherit:"@ + parent_id@ + ":in_plan="@ + bool_text(
            created_in_plan,
        ),
    }
}

/// The summary line of a node transition.
pub open spec fn update_line(u: CompiledNodeUpdate) -> Seq<char> {
    "transition "@ + u.node_id@ + " expected="@ + decimal_text(u.expected_revision as nat) + " to="@ + node_status_name(u.to)
}

/// The summary line of an edge to create.
pub open spec fn edge_line(e: CompiledEdge) -> Seq<char> {
    "edge "@ + e.from_node_id@ + " -> "@ + e.to_node_id@ + " kind="@ + edge_kind_name(e.kind)
}

/// The summary line of an edge removal.
pub open spec fn removal_line(r: CompiledEdgeRemoval) -> Seq<char> {
    "remove "@ + r.edge_id@ + " expected="@ + decimal_text(r.expected_revision as nat)
}

/// The text `Display` writes for `b`.
fn bool_string(b: bool) -> (r: &'static str)
    ensures
        r@ == bool_text(b),
{
    if b {
        "true"
    } else {
        "false"
    }
}

impl CompiledPlan {
    /// A one-line description of every mutation, in order: creations, transitions, edges,
    /// removals. Two compilations of the same proposal against the same snapshot give
    /// identical summaries.
    pub fn mutation_summary(&self) -> (r: Vec<String>)
        ensures
            string_views(r@) == self.nodes_add@.map_values(|n: CompiledNode| node_line(n)) + self.nodes_update@.map_values(
                |u: CompiledNodeUpdate| update_line(u),
            ) + self.edges_add@.map_values(|e: CompiledEdge| edge_line(e)) + self.edges_remove@.map_values(
                |x: CompiledEdgeRemoval| removal_line(x),
            ),
    {
        let ghost l1 = self.nodes_add@.map_values(|n: CompiledNode| node_line(n));
        let ghost l2 = self.nodes_update@.map_values(|u: CompiledNodeUpdate| update_line(u));
        let ghost l3 = self.edges_add@.map_values(|e: CompiledEdge| edge_line(e));
        let ghost l4 = self.edges_remove@.map_values(|x: CompiledEdgeRemoval| removal_line(x));
        let mut summary: Vec<String> = Vec::new();
        let mut i: usize = 0;
        while i < self.nodes_add.len()
            invariant
                i <= self.nodes_add@.len(),
                l1 == self.nodes_add@.map_values(|n: CompiledNode| node_line(n)),
                string_views(summary@) == l1.take(i as int),
            decreases self.nodes_add@.len() - i,
        {
            let node = &self.nodes_add[i];
            let mut line = owned("create ");
            line.append(node.draft_id.as_str());
            line.append(" kind=");
            line.append(node.kind.as_str());
            line.append(" status=");
            line.append(node.status.as_str());
            line.append(" parent=");
            match &node.parent_id {
                Some(p) => line.append(p.as_str()),
                None => line.append("-"),
            }
            line.append(" contract=");
            match &node.contract_source {
                ContractSource::Own => line.append("own"),
                ContractSource::InheritedFrom { parent_id, created_in_plan } => {
                    line.append("inherit:");
                    line.append(parent_id.as_str());
                    line.append(":in_plan=");
                    line.append(bool_string(*created_in_plan));
                },
            }
            let ghost before = summary@;
            proof {
                assert(line@ =~= node_line(*node));
            }
            summary.push(line);
            proof {
                assert(string_views(summary@) =~= string_views(before).push(l1[i as int]));
                assert(l1.take(i + 1) =~= l1.take(i as int).push(l1[i as int]));
            }
            i = i + 1;
        }
        proof {
            assert(l1.take(l1.len() as int) =~= l1);
        }
        let mut i: usize = 0;
        while i < self.nodes_update.len()
            invariant
                i <= self.nodes_update@.len(),
                l2 == self.nodes_update@.map_values(|u: CompiledNodeUpdate| update_line(u)),
                string_views(summary@) == l1 + l2.take(i as int),
            decreases self.nodes_update@.len() - i,
        {
            let update = &self.nodes_update[i];
            let mut line = owned("transition ");
            line.append(update.node_id.as_str());
            line.append(" expected=");
            line.append(u64_text(update.expected_revision).as_str());
            line.append(" to=");
            line.append(update.to.as_str());
            let ghost before = summary@;
            summary.push(line);
            proof {
                assert(string_views(summary@) =~= string_views(before).push(l2[i as int]));
                assert(l2.take(i + 1) =~= l2.take(i as int).push(l2[i as int]));
            }
            i = i + 1;
        }
        proof {
            assert(l2.take(l2.len() as int) =~= l2);
        }
        let mut i: usize = 0;
        while i < self.edges_add.len()
            invariant
                i <= self.edges_add@.len(),
                l3 == self.edges_add@.map_values(|e: CompiledEdge| edge_line(e)),
                string_views(summary@) == l1 + l2 + l3.take(i as int),
            decreases self.edges_add@.len() - i,
        {
            let edge = &self.edges_add[i];
            let mut line = owned("edge ");
            line.append(edge.from_node_id.as_str());
            line.append(" -> ");
            line.append(edge.to_node_id.as_str());
            line.append(" kind=");
            line.append(edge.kind.as_str());
            let ghost before = summary@;
            summary.push(line);
            proof {
                assert(string_views(summary@) =~= string_views(before).push(l3[i as int]));
                assert(l3.take(i + 1) =~= l3.take(i as int).push(l3[i as int]));
            }
            i = i + 1;
        }
        proof {
            assert(l3.take(l3.len() as int) =~= l3);
        }
        let mut i: usize = 0;
        while i < self.edges_remove.len()
            invariant
                i <= self.edges_remove@.len(),
                l4 == self.edges_remove@.map_values(|x: CompiledEdgeRemoval| removal_line(x)),
                string_views(summary@) == l1 + l2 + l3 + l4.take(i as int),
            decreases self.edges_remove@.len() - i,
        {
            let removal = &self.edges_remove[i];
            let mut line = owned("remove ");
            line.append(removal.edge_id.as_str());
            line.append(" expected=");
            line.append(u64_text(removal.expected_revision).as_str());
            let ghost before = summary@;
            summary.push(line);
            proof {
                assert(string_views(summary@) =~= string_views(before).push(l4[i as int]));
                assert(l4.take(i + 1) =~= l4.take(i as int).push(l4[i as int]));
            }
            i = i + 1;
        }
        proof {
            assert(l4.take(l4.len() as int) =~= l4);
        }
        summary
    }

    /// How many graph changes the plan carries.
    pub fn change_count(&self) -> (r: usize)
        requires
            self.nodes_add@.len() + self.nodes_update@.len() + self.edges_add@.len() + self.edges_remove@.len() <= usize::MAX,
        ensures
            r == self.nodes_add@.len() + self.nodes_update@.len() + self.edges_add@.len() + self.edges_remove@.len(),
    {
        self.nodes_add.len() + self.nodes_update.len() + self.edges_add.len() + self.edges_remove.len()
    }
}

} // verus!
