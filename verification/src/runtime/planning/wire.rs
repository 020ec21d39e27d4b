//! The raw model proposal and its canonical value sets.
//!
//! The model emits a plan proposal; this is the only place that reads that untrusted
//! shape. It validates the identity fields and the canonical `kind`, `status` and edge
//! `kind` value sets before the compiler looks at the graph: a value outside them is
//! refused rather than passed on, so an unknown state never reaches a store. JSON values
//! the planner carries through are held as their compact JSON text.

use vstd::prelude::*;
use crate::text::{debug_quoted, int_text, is_blank, i64_text, owned, quoted, str_eq, str_is_blank};
use crate::runtime::planning::{PlanError, schema_detail};

verus! {

/// A raw proposal, as emitted by a model.
#[derive(Debug, Clone)]
pub struct RawPlanProposal {
    /// Identity of the proposal, for audit and replay.
    pub proposal_id: String,
    /// The run the proposal came from.
    pub run_id: Option<String>,
    /// Workspace the proposal applies to.
    pub workspace_id: String,
    /// The graph revision the proposer observed: the compare-and-set key.
    pub base_revision: u64,
    /// Nodes to create.
    pub nodes_add: Vec<RawNode>,
    /// Node status updates.
    pub nodes_update: Vec<RawNodeUpdate>,
    /// Edges to create.
    pub edges_add: Vec<RawEdge>,
    /// Edges to remove.
    pub edges_remove: Vec<RawEdgeRemoval>,
    /// The proposer's rationale; required and non-empty.
    pub rationale: Option<String>,
    /// Grant templates the plan needs, as compact JSON text (`null` when absent).
    pub capability_needs: String,
}

/// One proposed node.
#[derive(Debug, Clone)]
pub struct RawNode {
    /// Proposal-local identity used by edges and parent references.
    pub id: String,
    /// Node kind.
    pub kind: String,
    /// Title.
    pub title: String,
    /// Description.
    pub description: Option<String>,
    /// Parent node: a proposal-local id or an existing node id.
    pub parent_id: Option<String>,
    /// Status; defaults to `draft`.
    pub status: Option<String>,
    /// CompletionContract as compact JSON text; an empty one means the node inherits its
    /// parent's.
    pub completion_contract: String,
    /// Capability need templates, as compact JSON text.
    pub capability_needs: String,
    /// Priority 0 to 3; defaults to 1.
    pub priority: Option<i16>,
    /// Budget row reference.
    pub budget_id: Option<String>,
    /// Thread the node originates from.
    pub thread_id: Option<String>,
}

/// One proposed node status update.
#[derive(Debug, Clone, PartialEq, Eq)]
pub struct RawNodeUpdate {
    /// The existing node to transition.
    pub node_id: String,
    /// The revision the proposer observed.
    pub expected_revision: u64,
    /// The requested status.
    pub to: String,
}

/// One proposed edge.
#[derive(Debug, Clone, PartialEq, Eq)]
pub struct RawEdge {
    /// Proposal-local edge identity.
    pub id: String,
    /// Source node.
    pub from_node_id: String,
    /// Target node.
    pub to_node_id: String,
    /// Edge kind.
    pub kind: String,
}

/// One proposed edge removal.
#[derive(Debug, Clone, PartialEq, Eq)]
pub struct RawEdgeRemoval {
    /// The existing edge to remove.
    pub edge_id: String,
    /// The revision the proposer observed.
    pub expected_revision: u64,
}

/// A work node kind.
#[derive(Debug, Clone, Copy, PartialEq, Eq, Hash, Structural)]
pub enum NodeKind {
    /// Root long-running goal.
    Objective,
    /// Unit of work under an objective.
    Task,
    /// Unit of work under a task.
    Subtask,
    /// Node that waits on an external condition.
    Wait,
    /// Marker node for a completion point.
    Milestone,
}

/// The stored name of a node kind.
pub open spec fn node_kind_name(k: NodeKind) -> Seq<char> {
    match k {
        NodeKind::Objective => "objective"@,
        NodeKind::Task => "task"@,
        NodeKind::Subtask => "subtask"@,
        NodeKind::Wait => "wait"@,
        NodeKind::Milestone => "milestone"@,
    }
}

/// Whether `s` names a node kind.
pub open spec fn is_node_kind(s: Seq<char>) -> bool {
    exists|k: NodeKind| node_kind_name(k) == s
}

impl NodeKind {
    /// Every kind, in canonical order.
    pub const ALL: [NodeKind; 5] = [NodeKind::Objective, NodeKind::Task, NodeKind::Subtask, NodeKind::Wait, NodeKind::Milestone];

    /// The stored name.
    pub fn as_str(self) -> (r: &'static str)
        ensures
            r@ == node_kind_name(self),
    {
        match self {
            NodeKind::Objective => "objective",
            NodeKind::Task => "task",
            NodeKind::Subtask => "subtask",
            NodeKind::Wait => "wait",
            NodeKind::Milestone => "milestone",
        }
    }

    /// The kind `value` names, refused when it names none.
    pub fn parse(value: &str) -> (r: Result<NodeKind, PlanError>)
        ensures
            match r {
                Ok(k) => node_kind_name(k) == value@,
                Err(e) => !is_node_kind(value@) && schema_detail(e) == Some("unknown WorkNode kind "@ + debug_quoted(value@)),
            },
    {
        let mut i: usize = 0;
        while i < 5
            invariant
                i <= 5,
                forall|j: int| 0 <= j < i ==> node_kind_name(#[trigger] Self::ALL@[j]) != value@,
            decreases 5 - i,
        {
            if str_eq(Self::ALL[i].as_str(), value) {
                return Ok(Self::ALL[i]);
            }
            i = i + 1;
        }
        proof {
            assert forall|k: NodeKind| node_kind_name(k) != value@ by {
                match k {
                    NodeKind::Objective => assert(Self::ALL@[0] == k),
                    NodeKind::Task => assert(Self::ALL@[1] == k),
                    NodeKind::Subtask => assert(Self::ALL@[2] == k),
                    NodeKind::Wait => assert(Self::ALL@[3] == k),
                    NodeKind::Milestone => assert(Self::ALL@[4] == k),
                }
            }
        }
        let mut detail = owned("unknown WorkNode kind ");
        detail.append(quoted(value).as_str());
        Err(PlanError::Schema { detail })
    }
}

/// A work node status.
#[derive(Debug, Clone, Copy, PartialEq, Eq, Hash, Structural)]
pub enum NodeStatus {
    /// Not yet planned.
    Draft,
    /// Planned and dispatchable.
    Ready,
    /// Waiting on a dependency or a blocker.
    Blocked,
    /// A run is executing the node.
    InProgress,
    /// Waiting for a question, timer, approval or child result.
    Waiting,
    /// CompletionContract verification is running.
    Verifying,
    /// Verified complete.
    Done,
    /// Ended unsuccessfully.
    Failed,
    /// Cancelled before completion.
    Cancelled,
}

/// The stored name of a node status.
pub open spec fn node_status_name(s: NodeStatus) -> Seq<char> {
    match s {
        NodeStatus::Draft => "draft"@,
        NodeStatus::Ready => "ready"@,
        NodeStatus::Blocked => "blocked"@,
        NodeStatus::InProgress => "in_progress"@,
        NodeStatus::Waiting => "waiting"@,
        NodeStatus::Verifying => "verifying"@,
        NodeStatus::Done => "done"@,
        NodeStatus::Failed => "failed"@,
        NodeStatus::Cancelled => "cancelled"@,
    }
}

/// Whether `s` names a node status.
pub open spec fn is_node_status(s: Seq<char>) -> bool {
    exists|k: NodeStatus| node_status_name(k) == s
}

impl NodeStatus {
    /// Every status, in canonical order.
    pub const ALL: [NodeStatus; 9] = [
        NodeStatus::Draft,
        NodeStatus::Ready,
        NodeStatus::Blocked,
        NodeStatus::InProgress,
        NodeStatus::Waiting,
        NodeStatus::Verifying,
        NodeStatus::Done,
        NodeStatus::Failed,
        NodeStatus::Cancelled,
    ];

    /// The stored name.
    pub fn as_str(self) -> (r: &'static str)
        ensures
            r@ == node_status_name(self),
    {
        match self {
            NodeStatus::Draft => "draft",
            NodeStatus::Ready => "ready",
            NodeStatus::Blocked => "blocked",
            NodeStatus::InProgress => "in_progress",
            NodeStatus::Waiting => "waiting",
            NodeStatus::Verifying => "verifying",
            NodeStatus::Done => "done",
            NodeStatus::Failed => "failed",
            NodeStatus::Cancelled => "cancelled",
        }
    }

    /// The status `value` names, refused when it names none.
    pub fn parse(value: &str) -> (r: Result<NodeStatus, PlanError>)
        ensures
            match r {
                Ok(k) => node_status_name(k) == value@,
                Err(e) => !is_node_status(value@) && schema_detail(e) == Some("unknown WorkNode status "@ + debug_quoted(value@)),
            },
    {
        let mut i: usize = 0;
        while i < 9
            invariant
                i <= 9,
                forall|j: int| 0 <= j < i ==> node_status_name(#[trigger] Self::ALL@[j]) != value@,
            decreases 9 - i,
        {
            if str_eq(Self::ALL[i].as_str(), value) {
                return Ok(Self::ALL[i]);
            }
            i = i + 1;
        }
        proof {
            assert forall|k: NodeStatus| node_status_name(k) != value@ by {
                match k {
                    NodeStatus::Draft => assert(Self::ALL@[0] == k),
                    NodeStatus::Ready => assert(Self::ALL@[1] == k),
                    NodeStatus::Blocked => assert(Self::ALL@[2] == k),
                    NodeStatus::InProgress => assert(Self::ALL@[3] == k),
                    NodeStatus::Waiting => assert(Self::ALL@[4] == k),
                    NodeStatus::Verifying => assert(Self::ALL@[5] == k),
                    NodeStatus::Done => assert(Self::ALL@[6] == k),
                    NodeStatus::Failed => assert(Self::ALL@[7] == k),
                    NodeStatus::Cancelled => assert(Self::ALL@[8] == k),
                }
            }
        }
        let mut detail = owned("unknown WorkNode status ");
        detail.append(quoted(value).as_str());
        Err(PlanError::Schema { detail })
    }
}

/// A work edge kind.
#[derive(Debug, Clone, Copy, PartialEq, Eq, Hash, Structural)]
pub enum EdgeKind {
    /// `from` depends on `to`; must stay acyclic.
    DependsOn,
    /// `from` is the parent of `to`; must stay acyclic.
    ParentOf,
    /// `from` produces an artifact associated with `to`.
    ProducesArtifact,
    /// `from` is verified by `to`.
    VerifiedBy,
    /// `from` is blocked by `to`.
    BlockedBy,
}

/// The stored name of an edge kind.
pub open spec fn edge_kind_name(k: EdgeKind) -> Seq<char> {
    match k {
        EdgeKind::DependsOn => "depends_on"@,
        EdgeKind::ParentOf => "parent_of"@,
        EdgeKind::ProducesArtifact => "produces_artifact"@,
        EdgeKind::VerifiedBy => "verified_by"@,
        EdgeKind::BlockedBy => "blocked_by"@,
    }
}

/// Whether `s` names an edge kind.
pub open spec fn is_edge_kind(s: Seq<char>) -> bool {
    exists|k: EdgeKind| edge_kind_name(k) == s
}

/// Whether an edge kind must stay acyclic.
pub open spec fn acyclic_kind(k: EdgeKind) -> bool {
    k == EdgeKind::DependsOn || k == EdgeKind::ParentOf
}

impl EdgeKind {
    /// Every kind, in canonical order.
    pub const ALL: [EdgeKind; 5] = [EdgeKind::DependsOn, EdgeKind::ParentOf, EdgeKind::ProducesArtifact, EdgeKind::VerifiedBy, EdgeKind::BlockedBy];

    /// The stored name.
    pub fn as_str(self) -> (r: &'static str)
        ensures
            r@ == edge_kind_name(self),
    {
        match self {
            EdgeKind::DependsOn => "depends_on",
            EdgeKind::ParentOf => "parent_of",
            EdgeKind::ProducesArtifact => "produces_artifact",
            EdgeKind::VerifiedBy => "verified_by",
            EdgeKind::BlockedBy => "blocked_by",
        }
    }

    /// The kind `value` names, refused when it names none.
    pub fn parse(value: &str) -> (r: Result<EdgeKind, PlanError>)
        ensures
            match r {
                Ok(k) => edge_kind_name(k) == value@,
                Err(e) => !is_edge_kind(value@) && schema_detail(e) == Some("unknown WorkEdge kind "@ + debug_quoted(value@)),
            },
    {
        let mut i: usize = 0;
        while i < 5
            invariant
                i <= 5,
                forall|j: int| 0 <= j < i ==> edge_kind_name(#[trigger] Self::ALL@[j]) != value@,
            decreases 5 - i,
        {
            if str_eq(Self::ALL[i].as_str(), value) {
                return Ok(Self::ALL[i]);
            }
            i = i + 1;
        }
        proof {
            assert forall|k: EdgeKind| edge_kind_name(k) != value@ by {
                match k {
                    EdgeKind::DependsOn => assert(Self::ALL@[0] == k),
                    EdgeKind::ParentOf => assert(Self::ALL@[1] == k),
                    EdgeKind::ProducesArtifact => assert(Self::ALL@[2] == k),
                    EdgeKind::VerifiedBy => assert(Self::ALL@[3] == k),
                    EdgeKind::BlockedBy => assert(Self::ALL@[4] == k),
                }
            }
        }
        let mut detail = owned("unknown WorkEdge kind ");
        detail.append(quoted(value).as_str());
        Err(PlanError::Schema { detail })
    }

    /// Whether this kind must stay acyclic.
    pub fn is_acyclic_relation(self) -> (r: bool)
        ensures
            r == acyclic_kind(self),
    {
        match self {
            EdgeKind::DependsOn => true,
            EdgeKind::ParentOf => true,
            _ => false,
        }
    }
}


/// The first problem `f` finds in `s`, front to back.
pub open spec fn first_problem<T>(s: Seq<T>, f: spec_fn(T) -> Option<Seq<char>>) -> Option<Seq<char>>
    decreases s.len(),
{
    if s.len() == 0 {
        None
    } else {
        match f(s[0]) {
            Some(p) => Some(p),
            None => first_problem(s.drop_first(), f),
        }
    }
}

/// What is wrong with a proposed node, if anything: an unknown kind or status, a blank
/// id or title, or a priority outside 0 to 3.
pub open spec fn node_problem(n: RawNode) -> Option<Seq<char>> {
    if !is_node_kind(n.kind@) {
        Some("unknown WorkNode kind "@ + debug_quoted(n.kind@))
    } else if n.status matches Some(st) && !is_node_status(st@) {
        Some("unknown WorkNode status "@ + debug_quoted(n.status->0@))
    } else if is_blank(n.id@) {
        Some("a node id must not be empty"@)
    } else if is_blank(n.title@) {
        Some("node "@ + debug_quoted(n.id@) + " must have a title"@)
    } else if n.priority matches Some(p) && !(0 <= p <= 3) {
        Some("node "@ + debug_quoted(n.id@) + " priority "@ + int_text(n.priority->0 as int) + " is outside 0..=3"@)
    } else {
        None
    }
}

/// What is wrong with a proposed update, if anything: an unknown status.
pub open spec fn update_problem(u: RawNodeUpdate) -> Option<Seq<char>> {
    if is_node_status(u.to@) {
        None
    } else {
        Some("unknown WorkNode status "@ + debug_quoted(u.to@))
    }
}

/// What is wrong with a proposed edge, if anything: an unknown kind.
pub open spec fn edge_problem(e: RawEdge) -> Option<Seq<char>> {
    if is_edge_kind(e.kind@) {
        None
    } else {
        Some("unknown WorkEdge kind "@ + debug_quoted(e.kind@))
    }
}

/// The first thing wrong with a raw proposal's identity fields and value sets, in the
/// order they are checked.
pub open spec fn raw_problem(raw: RawPlanProposal) -> Option<Seq<char>> {
    if is_blank(raw.proposal_id@) {
        Some("proposal_id is required"@)
    } else if is_blank(raw.workspace_id@) {
        Some("workspace_id is required"@)
    } else if (match raw.rationale {
        Some(r) => r@.len() == 0,
        None => true,
    }) {
        Some("rationale is required"@)
    } else {
        match first_problem(raw.nodes_add@, |n: RawNode| node_problem(n)) {
            Some(p) => Some(p),
            None => match first_problem(raw.nodes_update@, |u: RawNodeUpdate| update_problem(u)) {
                Some(p) => Some(p),
                None => first_problem(raw.edges_add@, |e: RawEdge| edge_problem(e)),
            },
        }
    }
}

/// Check one proposed node.
fn check_node(node: &RawNode) -> (r: Result<(), PlanError>)
    ensures
        r is Ok <==> node_problem(*node) is None,
        r matches Err(e) ==> schema_detail(e) == node_problem(*node),
{
    NodeKind::parse(node.kind.as_str())?;
    match &node.status {
        Some(status) => {
            NodeStatus::parse(status.as_str())?;
        },
        None => {},
    }
    if str_is_blank(node.id.as_str()) {
        return Err(PlanError::Schema { detail: owned("a node id must not be empty") });
    }
    if str_is_blank(node.title.as_str()) {
        let mut detail = owned("node ");
        detail.append(quoted(node.id.as_str()).as_str());
        detail.append(" must have a title");
        return Err(PlanError::Schema { detail });
    }
    match node.priority {
        Some(priority) => {
            if !(0 <= priority && priority <= 3) {
                let mut detail = owned("node ");
                detail.append(quoted(node.id.as_str()).as_str());
                detail.append(" priority ");
                detail.append(i64_text(priority as i64).as_str());
                detail.append(" is outside 0..=3");
                return Err(PlanError::Schema { detail });
            }
        },
        None => {},
    }
    Ok(())
}

/// Check a raw proposal's identity fields and canonical value sets: refused with the
/// first problem found, in the order of `raw_problem`.
pub fn validate_raw(raw: &RawPlanProposal) -> (r: Result<(), PlanError>)
    ensures
        r is Ok <==> raw_problem(*raw) is None,
        r matches Err(e) ==> schema_detail(e) == raw_problem(*raw),
{
    if str_is_blank(raw.proposal_id.as_str()) {
        return Err(PlanError::Schema { detail: owned("proposal_id is required") });
    }
    if str_is_blank(raw.workspace_id.as_str()) {
        return Err(PlanError::Schema { detail: owned("workspace_id is required") });
    }
    let missing = match &raw.rationale {
        Some(r) => r.as_str().unicode_len() == 0,
        None => true,
    };
    if missing {
        return Err(PlanError::Schema { detail: owned("rationale is required") });
    }
    let ghost fnode = |n: RawNode| node_problem(n);
    let ghost fupd = |u: RawNodeUpdate| update_problem(u);
    let ghost fedge = |e: RawEdge| edge_problem(e);
    let mut i: usize = 0;
    proof {
        assert(raw.nodes_add@.skip(0) =~= raw.nodes_add@);
    }
    while i < raw.nodes_add.len()
        invariant
            i <= raw.nodes_add@.len(),
            !is_blank(raw.proposal_id@) && !is_blank(raw.workspace_id@),
            raw.rationale matches Some(r) && r@.len() > 0,
            fnode == (|n: RawNode| node_problem(n)),
            first_problem(raw.nodes_add@, fnode) == first_problem(raw.nodes_add@.skip(i as int), fnode),
        decreases raw.nodes_add@.len() - i,
    {
        proof {
            assert(raw.nodes_add@.skip(i as int)[0] == raw.nodes_add@[i as int]);
            assert(raw.nodes_add@.skip(i as int).drop_first() =~= raw.nodes_add@.skip(i + 1));
        }
        match check_node(&raw.nodes_add[i]) {
            Ok(()) => {},
            Err(e) => {
                return Err(e);
            },
        }
        i = i + 1;
    }
    proof {
        assert(raw.nodes_add@.skip(i as int) =~= Seq::<RawNode>::empty());
        assert(raw.nodes_update@.skip(0) =~= raw.nodes_update@);
    }
    let mut i: usize = 0;
    while i < raw.nodes_update.len()
        invariant
            i <= raw.nodes_update@.len(),
            !is_blank(raw.proposal_id@) && !is_blank(raw.workspace_id@),
            raw.rationale matches Some(r) && r@.len() > 0,
            fnode == (|n: RawNode| node_problem(n)),
            fupd == (|u: RawNodeUpdate| update_problem(u)),
            first_problem(raw.nodes_add@, fnode) is None,
            first_problem(raw.nodes_update@, fupd) == first_problem(raw.nodes_update@.skip(i as int), fupd),
        decreases raw.nodes_update@.len() - i,
    {
        proof {
            assert(raw.nodes_update@.skip(i as int)[0] == raw.nodes_update@[i as int]);
            assert(raw.nodes_update@.skip(i as int).drop_first() =~= raw.nodes_update@.skip(i + 1));
        }
        match NodeStatus::parse(raw.nodes_update[i].to.as_str()) {
            Ok(_) => {},
            Err(e) => {
                return Err(e);
            },
        }
        i = i + 1;
    }
    proof {
        assert(raw.nodes_update@.skip(i as int) =~= Seq::<RawNodeUpdate>::empty());
        assert(raw.edges_add@.skip(0) =~= raw.edges_add@);
    }
    let mut i: usize = 0;
    while i < raw.edges_add.len()
        invariant
            i <= raw.edges_add@.len(),
            !is_blank(raw.proposal_id@) && !is_blank(raw.workspace_id@),
            raw.rationale matches Some(r) && r@.len() > 0,
            fnode == (|n: RawNode| node_problem(n)),
            fupd == (|u: RawNodeUpdate| update_problem(u)),
            fedge == (|e: RawEdge| edge_problem(e)),
            first_problem(raw.nodes_add@, fnode) is None,
            first_problem(raw.nodes_update@, fupd) is None,
            first_problem(raw.edges_add@, fedge) == first_problem(raw.edges_add@.skip(i as int), fedge),
        decreases raw.edges_add@.len() - i,
    {
        proof {
            assert(raw.edges_add@.skip(i as int)[0] == raw.edges_add@[i as int]);
            assert(raw.edges_add@.skip(i as int).drop_first() =~= raw.edges_add@.skip(i + 1));
        }
        match EdgeKind::parse(raw.edges_add[i].kind.as_str()) {
            Ok(_) => {},
            Err(e) => {
                return Err(e);
            },
        }
        i = i + 1;
    }
    proof {
        assert(raw.edges_add@.skip(i as int) =~= Seq::<RawEdge>::empty());
    }
    Ok(())
}


/// Distinct edge kinds have distinct names, so a name parses back to its kind.
pub proof fn law_edge_kind_names_round_trip(a: EdgeKind, b: EdgeKind)
    ensures
        edge_kind_name(a) == edge_kind_name(b) ==> a == b,
{
    reveal_strlit("depends_on");
    reveal_strlit("parent_of");
    reveal_strlit("produces_artifact");
    reveal_strlit("verified_by");
    reveal_strlit("blocked_by");
    if edge_kind_name(a) == edge_kind_name(b) && a != b {
        let x = edge_kind_name(a);
        let y = edge_kind_name(b);
        assert(x.len() != y.len() || x[0] != y[0]);
    }
}

/// Distinct node kinds have distinct names.
pub proof fn law_node_kind_names_round_trip(a: NodeKind, b: NodeKind)
    ensures
        node_kind_name(a) == node_kind_name(b) ==> a == b,
{
    reveal_strlit("objective");
    reveal_strlit("task");
    reveal_strlit("subtask");
    reveal_strlit("wait");
    reveal_strlit("milestone");
    if node_kind_name(a) == node_kind_name(b) && a != b {
        let x = node_kind_name(a);
        let y = node_kind_name(b);
        assert(x.len() != y.len() || x[0] != y[0]);
    }
}

/// Distinct node statuses have distinct names.
pub proof fn law_node_status_names_round_trip(a: NodeStatus, b: NodeStatus)
    ensures
        node_status_name(a) == node_status_name(b) ==> a == b,
{
    reveal_strlit("draft");
    reveal_strlit("ready");
    reveal_strlit("blocked");
    reveal_strlit("in_progress");
    reveal_strlit("waiting");
    reveal_strlit("verifying");
    reveal_strlit("done");
    reveal_strlit("failed");
    reveal_strlit("cancelled");
    if node_status_name(a) == node_status_name(b) && a != b {
        let x = node_status_name(a);
        let y = node_status_name(b);
        assert(x.len() != y.len() || x[0] != y[0]);
    }
}

} // verus!
