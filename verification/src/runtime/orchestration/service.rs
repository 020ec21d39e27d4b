//! The orchestrator's decisions: one tick of release, select and report, and what a
//! subtree cancellation reports.
//!
//! The orchestrator owns no state of its own. A tick reads the graph, commits the
//! dependency and join releases it must make, selects the work the concurrency budget
//! admits against the graph it is about to leave behind, and dispatches it. Running it
//! twice over an unchanged graph is a no-op, which is what makes it safe to call from a
//! loop, from a retry, or from two instances at once.

use vstd::prelude::*;
use crate::text::{owned, str_eq};
use crate::policy::lifecycle::string_views;
use crate::runtime::orchestration::OrchestrationError;
use crate::runtime::orchestration::capacity::{CapacityGate, CapacityRefusal, free_slots};
use crate::runtime::orchestration::cancel::{CancelPlan, CancellationOutcome, CancelledNode, copy_transitions, transition_ids};
use crate::runtime::orchestration::graph::{GraphSnapshot, NodeTransition, WorkNodeView, copy_string, find_node, has_id, slots_in};
use crate::runtime::orchestration::queue::{
    JoinPlan, ReleasePlan, Selection, TransitionView, acyclic, ensure_acyclic, in_run_order, is_node_id, join_of, join_plan,
    on_dependency_cycle,
    last_transition, lemma_last_transition, project, projected_node, release_of, release_plan, revisions_can_advance,
    select, selection_for, transition_views, Deferred,
};

verus! {

/// The most times a tick recomputes after losing the graph revision race.
pub const MAX_REVISION_ATTEMPTS: usize = 3;

/// The most times a cancellation recomputes after losing the graph revision race.
///
/// Cancellation is the one operation expected to arrive in storms, so it retries harder: a
/// lost race means another canceller is doing the same work, and the pass should end up
/// reporting "already cancelled" rather than a revision conflict.
pub const MAX_CANCEL_ATTEMPTS: usize = 10;

/// What one orchestration tick did.
#[derive(Debug, Clone, PartialEq, Eq)]
pub struct TickReport {
    /// Workspace the tick ran for.
    pub workspace_id: String,
    /// Graph revision the tick left behind.
    pub graph_revision: u64,
    /// Dependency releases applied.
    pub released: usize,
    /// Fan-in joins applied.
    pub joined: usize,
    /// Runs moved to `RUNNING`.
    pub dispatched: usize,
    /// Runs that were already running.
    pub already_running: usize,
    /// Runs whose request was fenced by a newer generation.
    pub fenced: usize,
    /// Runs the runtime refused to dispatch.
    pub not_dispatchable: usize,
    /// Ready work the concurrency budget did not admit.
    pub deferred: Vec<String>,
    /// Nodes waiting on a parked or suspended run.
    pub waiting: Vec<String>,
    /// Nodes that cannot start because a prerequisite is not done.
    pub blocked: Vec<String>,
    /// The capacity refusal, when work was held back.
    pub capacity: Option<CapacityRefusal>,
}

impl TickReport {
    /// Whether the tick changed nothing.
    pub fn is_quiet(&self) -> (r: bool)
        ensures
            r == (self.released == 0 && self.joined == 0 && self.dispatched == 0),
    {
        self.released == 0 && self.joined == 0 && self.dispatched == 0
    }
}

/// What a tick decided over one snapshot, before it dispatches.
pub struct TickPlan {
    /// The dependency releases.
    pub release: ReleasePlan,
    /// The fan-in joins.
    pub join: JoinPlan,
    /// The releases then the joins: the batch the tick commits.
    pub transitions: Vec<NodeTransition>,
    /// The graph once the batch is applied.
    pub projected: GraphSnapshot,
    /// Free slots in the projected graph.
    pub headroom: usize,
    /// What to dispatch, defer, report waiting and report blocked.
    pub selection: Selection,
}

/// The releases and joins a tick makes over `nodes`, by view.
pub open spec fn tick_views(nodes: Seq<WorkNodeView>, edges: Seq<crate::runtime::orchestration::graph::DependencyEdge>) -> Seq<TransitionView> {
    in_run_order(nodes).filter_map(|n: WorkNodeView| release_of(nodes, edges, n)) + in_run_order(nodes).filter_map(
        |n: WorkNodeView| join_of(nodes, n),
    )
}

/// Whether every node a tick transitions has a revision that can still grow.
pub open spec fn tick_can_advance(nodes: Seq<WorkNodeView>, edges: Seq<crate::runtime::orchestration::graph::DependencyEdge>) -> bool {
    forall|i: int, k: int|
        0 <= i < nodes.len() && 0 <= k < tick_views(nodes, edges).len() && (#[trigger] tick_views(nodes, edges)[k]).0
            == (#[trigger] nodes[i]).id@ ==> nodes[i].revision < u64::MAX
}

/// One tick's decisions over `snapshot` under `gate`: refuse a graph with a dependency
/// cycle; otherwise release, join, and select against the graph the batch leaves behind.
pub fn plan_tick(snapshot: &GraphSnapshot, gate: &CapacityGate) -> (r: Result<TickPlan, OrchestrationError>)
    requires
        acyclic(snapshot.nodes@, snapshot.edges@) ==> tick_can_advance(snapshot.nodes@, snapshot.edges@),
    ensures
        r is Err <==> !acyclic(snapshot.nodes@, snapshot.edges@),
        r matches Err(e) ==> e matches OrchestrationError::DependencyCycle { node_id } && is_node_id(
            snapshot.nodes@,
            node_id@,
        ) && on_dependency_cycle(snapshot.nodes@, snapshot.edges@, node_id@),
        r matches Ok(p) ==> {
            &&& transition_views(p.release.transitions@) == in_run_order(snapshot.nodes@).filter_map(
                |n: WorkNodeView| release_of(snapshot.nodes@, snapshot.edges@, n),
            )
            &&& transition_views(p.join.transitions@) == in_run_order(snapshot.nodes@).filter_map(
                |n: WorkNodeView| join_of(snapshot.nodes@, n),
            )
            &&& p.transitions@ == p.release.transitions@ + p.join.transitions@
            &&& p.projected.workspace_id == snapshot.workspace_id
            &&& p.projected.revision == snapshot.revision
            &&& p.projected.edges@ == snapshot.edges@
            &&& p.projected.nodes@ == snapshot.nodes@.map_values(|n: WorkNodeView| projected_node(p.transitions@, n))
            &&& p.headroom == free_slots(gate@ as nat, slots_in(p.projected.nodes@))
            &&& selection_for(p.projected.nodes@, p.projected.edges@, p.headroom as nat, p.selection)
        },
{
    match ensure_acyclic(snapshot) {
        Ok(()) => {},
        Err(e) => {
            return Err(e);
        },
    }
    let release = release_plan(snapshot);
    let join = join_plan(snapshot);
    let mut transitions = copy_transitions(&release.transitions);
    let mut joins = copy_transitions(&join.transitions);
    transitions.append(&mut joins);
    proof {
        let views = tick_views(snapshot.nodes@, snapshot.edges@);
        assert(transition_views(transitions@) =~= views);
        assert forall|i: int|
            0 <= i < snapshot.nodes@.len() && (#[trigger] last_transition(transitions@, snapshot.nodes@[i].id@)) is Some
            implies snapshot.nodes@[i].revision < u64::MAX by {
            lemma_last_transition(transitions@, snapshot.nodes@[i].id@);
            let t = last_transition(transitions@, snapshot.nodes@[i].id@)->0;
            let k = choose|k: int| 0 <= k < transitions@.len() && transitions@[k] == t;
            assert(views[k] == transition_views(transitions@)[k]);
            assert(views[k].0 == snapshot.nodes@[i].id@);
        }
        assert(revisions_can_advance(snapshot.nodes@, transitions@));
    }
    let projected = project(snapshot, transitions.as_slice());
    let headroom = gate.headroom(&projected);
    let selection = select(&projected, headroom);
    Ok(TickPlan { release, join, transitions, projected, headroom, selection })
}

/// The node ids of deferrals.
fn deferred_ids(deferred: &Vec<Deferred>) -> (r: Vec<String>)
    ensures
        string_views(r@) == deferred@.map_values(|d: Deferred| d.node_id@),
{
    let mut out: Vec<String> = Vec::new();
    let mut i: usize = 0;
    while i < deferred.len()
        invariant
            i <= deferred@.len(),
            string_views(out@) == deferred@.take(i as int).map_values(|d: Deferred| d.node_id@),
        decreases deferred@.len() - i,
    {
        let ghost before = out@;
        out.push(deferred[i].node_id.clone());
        proof {
            assert(deferred@.take(i + 1) =~= deferred@.take(i as int).push(deferred@[i as int]));
            assert(string_views(out@) =~= string_views(before).push(deferred@[i as int].node_id@));
            assert(string_views(out@) =~= deferred@.take(i + 1).map_values(|d: Deferred| d.node_id@));
        }
        i = i + 1;
    }
    proof {
        assert(deferred@.take(deferred@.len() as int) =~= deferred@);
    }
    out
}

/// Copies of `v`, equal to it.
fn copy_strings(v: &Vec<String>) -> (r: Vec<String>)
    ensures
        r@ == v@,
{
    let mut out: Vec<String> = Vec::new();
    let mut i: usize = 0;
    while i < v.len()
        invariant
            i <= v@.len(),
            out@ == v@.take(i as int),
        decreases v@.len() - i,
    {
        out.push(copy_string(&v[i]));
        proof {
            assert(v@.take(i + 1) =~= v@.take(i as int).push(v@[i as int]));
        }
        i = i + 1;
    }
    proof {
        assert(v@.take(v@.len() as int) =~= v@);
    }
    out
}

/// The report of a tick that committed `plan` at `graph_revision` and had its dispatches
/// answered as counted: the capacity refusal is reported exactly when work was deferred.
pub fn tick_report(
    plan: &TickPlan,
    gate: &CapacityGate,
    graph_revision: u64,
    dispatched: usize,
    already_running: usize,
    fenced: usize,
    not_dispatchable: usize,
) -> (r: TickReport)
    ensures
        r.workspace_id == plan.projected.workspace_id,
        r.graph_revision == graph_revision,
        r.released == plan.release.transitions@.len(),
        r.joined == plan.join.transitions@.len(),
        r.dispatched == dispatched,
        r.already_running == already_running,
        r.fenced == fenced,
        r.not_dispatchable == not_dispatchable,
        string_views(r.deferred@) == plan.selection.deferred@.map_values(|d: Deferred| d.node_id@),
        r.waiting@ == plan.selection.waiting@,
        r.blocked@ == plan.selection.blocked@,
        r.capacity == if plan.selection.deferred@.len() == 0 {
            None
        } else {
            Some(CapacityRefusal { in_flight: slots_in(plan.projected.nodes@) as usize, limit: gate@ })
        },
{
    let deferred = deferred_ids(&plan.selection.deferred);
    proof {
        assert(string_views(deferred@).len() == deferred@.len());
    }
    let capacity = if deferred.len() == 0 {
        None
    } else {
        Some(gate.refusal(&plan.projected))
    };
    TickReport {
        workspace_id: copy_string(&plan.projected.workspace_id),
        graph_revision,
        released: plan.release.transitions.len(),
        joined: plan.join.transitions.len(),
        dispatched,
        already_running,
        fenced,
        not_dispatchable,
        deferred,
        waiting: copy_strings(&plan.selection.waiting),
        blocked: copy_strings(&plan.selection.blocked),
        capacity,
    }
}


/// `acc` followed by each id of `ids` it does not hold yet, in order.
pub open spec fn merged(acc: Seq<Seq<char>>, ids: Seq<Seq<char>>) -> Seq<Seq<char>>
    decreases ids.len(),
{
    if ids.len() == 0 {
        acc
    } else {
        let m = merged(acc, ids.drop_last());
        if has_id(m, ids.last()) {
            m
        } else {
            m.push(ids.last())
        }
    }
}

/// Whether `s` holds `x`.
fn holds(s: &Vec<String>, x: &str) -> (r: bool)
    ensures
        r == has_id(string_views(s@), x@),
{
    let mut i: usize = 0;
    while i < s.len()
        invariant
            i <= s@.len(),
            forall|k: int| 0 <= k < i ==> string_views(s@)[k] != x@,
        decreases s@.len() - i,
    {
        if str_eq(s[i].as_str(), x) {
            proof {
                assert(string_views(s@)[i as int] == x@);
            }
            return true;
        }
        i = i + 1;
    }
    false
}

/// Add the run ids of `ids` that `acc` does not hold yet, in order: what a cancellation
/// accumulates across its retries.
pub fn record_run_ids(acc: &mut Vec<String>, ids: &Vec<String>)
    ensures
        string_views(final(acc)@) == merged(string_views(old(acc)@), string_views(ids@)),
{
    let ghost a0 = string_views(acc@);
    let mut i: usize = 0;
    while i < ids.len()
        invariant
            i <= ids@.len(),
            string_views(acc@) == merged(a0, string_views(ids@).take(i as int)),
        decreases ids@.len() - i,
    {
        let ghost t1 = string_views(ids@).take(i + 1);
        proof {
            assert(t1.drop_last() =~= string_views(ids@).take(i as int));
            assert(t1.last() == ids@[i as int]@);
        }
        if !holds(acc, ids[i].as_str()) {
            let ghost before = acc@;
            acc.push(ids[i].clone());
            proof {
                assert(string_views(acc@) =~= string_views(before).push(ids@[i as int]@));
            }
        }
        i = i + 1;
    }
    proof {
        assert(string_views(ids@).take(ids@.len() as int) =~= string_views(ids@));
    }
}

/// The outcome of a cancellation that found nothing left to do, reporting the runs it
/// stopped on earlier attempts, if any.
pub fn converged_outcome(did_cancel: Vec<String>, was_cancelled: Vec<String>) -> (r: CancellationOutcome)
    ensures
        r.already_cancelled,
        r.cancelled@.len() == 0,
        r.blocked@.len() == 0,
        r.runs_left_unstarted@.len() == 0,
        did_cancel@.len() == 0 ==> r.runs_cancelled@.len() == 0 && r.runs_already_cancelled@.len() == 0,
        did_cancel@.len() > 0 ==> r.runs_cancelled@ == did_cancel@ && r.runs_already_cancelled@ == was_cancelled@,
{
    if did_cancel.len() == 0 {
        return CancellationOutcome::already_done();
    }
    CancellationOutcome {
        cancelled: Vec::new(),
        blocked: Vec::new(),
        runs_cancelled: did_cancel,
        runs_already_cancelled: was_cancelled,
        runs_left_unstarted: Vec::new(),
        already_cancelled: true,
    }
}

/// The outcome of a cancellation whose last attempt lost the revision race but found the
/// subtree already cancelled by then: every run it stopped, and every run others stopped.
pub fn settled_after_race(did_cancel: Vec<String>, was_cancelled: Vec<String>) -> (r: CancellationOutcome)
    ensures
        r.already_cancelled,
        r.cancelled@.len() == 0,
        r.blocked@.len() == 0,
        r.runs_left_unstarted@.len() == 0,
        r.runs_cancelled@ == did_cancel@,
        r.runs_already_cancelled@ == was_cancelled@,
{
    CancellationOutcome {
        cancelled: Vec::new(),
        blocked: Vec::new(),
        runs_cancelled: did_cancel,
        runs_already_cancelled: was_cancelled,
        runs_left_unstarted: Vec::new(),
        already_cancelled: true,
    }
}

/// Whether attempt `attempt` (counting from zero) that lost the graph revision race is
/// followed by another, out of `limit` attempts in all.
pub fn retry_after_conflict(attempt: usize, limit: usize) -> (r: bool)
    ensures
        r == (attempt + 1 < limit),
{
    attempt < limit && limit - attempt > 1
}

/// The status node `id` held, or the empty text when it is not in the graph.
pub open spec fn prior_status(nodes: Seq<WorkNodeView>, id: Seq<char>) -> Seq<char> {
    match find_node(nodes, id) {
        Some(n) => n.status@,
        None => Seq::empty(),
    }
}

/// The view of a cancelled node: id, previous status, whether applied.
pub open spec fn cancelled_view(c: CancelledNode) -> (Seq<char>, Seq<char>, bool) {
    (c.node_id@, c.previous_status@, c.applied)
}

/// The ids of `was` that are not in `did`, in order.
pub open spec fn not_in(was: Seq<Seq<char>>, did: Seq<Seq<char>>) -> Seq<Seq<char>> {
    was.filter_map(|x: Seq<char>| if has_id(did, x) { None } else { Some(x) })
}

/// The outcome of a cancellation whose plan was applied: every planned node cancelled with
/// the status it held, the blocked dependents, the runs this call stopped, those already
/// stopped by others, and the runs left unstarted.
pub fn applied_outcome(snapshot: &GraphSnapshot, plan: &CancelPlan, did_cancel: &Vec<String>, was_cancelled: &Vec<String>) -> (r: CancellationOutcome)
    ensures
        !r.already_cancelled,
        r.cancelled@.map_values(|c: CancelledNode| cancelled_view(c)) == plan.cancelled_nodes@.map_values(
            |t: NodeTransition| (t.node_id@, prior_status(snapshot.nodes@, t.node_id@), true),
        ),
        string_views(r.blocked@) == transition_ids(plan.blocked_dependents@),
        r.runs_cancelled@ == did_cancel@,
        string_views(r.runs_already_cancelled@) == not_in(string_views(was_cancelled@), string_views(did_cancel@)),
        string_views(r.runs_left_unstarted@) == plan.unstarted_runs@.map_values(|x: crate::runtime::orchestration::graph::RunRef| x.run_id@),
{
    let ghost f = |t: NodeTransition| (t.node_id@, prior_status(snapshot.nodes@, t.node_id@), true);
    let mut cancelled: Vec<CancelledNode> = Vec::new();
    let mut i: usize = 0;
    while i < plan.cancelled_nodes.len()
        invariant
            i <= plan.cancelled_nodes@.len(),
            f == (|t: NodeTransition| (t.node_id@, prior_status(snapshot.nodes@, t.node_id@), true)),
            cancelled@.map_values(|c: CancelledNode| cancelled_view(c)) == plan.cancelled_nodes@.take(i as int).map_values(f),
        decreases plan.cancelled_nodes@.len() - i,
    {
        let t = &plan.cancelled_nodes[i];
        proof {
            reveal_strlit("");
            assert(""@ =~= Seq::<char>::empty());
        }
        let previous_status = match snapshot.node(t.node_id.as_str()) {
            Some(node) => node.status.clone(),
            None => owned(""),
        };
        assert(previous_status@ == prior_status(snapshot.nodes@, t.node_id@));
        let ghost before = cancelled@;
        cancelled.push(CancelledNode { node_id: t.node_id.clone(), previous_status, applied: true });
        proof {
            assert(plan.cancelled_nodes@.take(i + 1) =~= plan.cancelled_nodes@.take(i as int).push(*t));
            assert(cancelled@.map_values(|c: CancelledNode| cancelled_view(c)) =~= before.map_values(
                |c: CancelledNode| cancelled_view(c),
            ).push(f(*t)));
        }
        i = i + 1;
    }
    let mut blocked: Vec<String> = Vec::new();
    let mut i: usize = 0;
    while i < plan.blocked_dependents.len()
        invariant
            i <= plan.blocked_dependents@.len(),
            string_views(blocked@) == transition_ids(plan.blocked_dependents@.take(i as int)),
        decreases plan.blocked_dependents@.len() - i,
    {
        let ghost before = blocked@;
        blocked.push(plan.blocked_dependents[i].node_id.clone());
        proof {
            assert(plan.blocked_dependents@.take(i + 1) =~= plan.blocked_dependents@.take(i as int).push(
                plan.blocked_dependents@[i as int],
            ));
            assert(string_views(blocked@) =~= string_views(before).push(plan.blocked_dependents@[i as int].node_id@));
            assert(string_views(blocked@) =~= transition_ids(plan.blocked_dependents@.take(i + 1)));
        }
        i = i + 1;
    }
    let ghost g = |x: Seq<char>| if has_id(string_views(did_cancel@), x) { None } else { Some(x) };
    let mut already: Vec<String> = Vec::new();
    let mut i: usize = 0;
    while i < was_cancelled.len()
        invariant
            i <= was_cancelled@.len(),
            g == (|x: Seq<char>| if has_id(string_views(did_cancel@), x) { None } else { Some(x) }),
            string_views(already@) == string_views(was_cancelled@).take(i as int).filter_map(g),
        decreases was_cancelled@.len() - i,
    {
        proof {
            let t1 = string_views(was_cancelled@).take(i + 1);
            assert(t1.drop_last() =~= string_views(was_cancelled@).take(i as int));
            assert(t1.last() == was_cancelled@[i as int]@);
        }
        if !holds(did_cancel, was_cancelled[i].as_str()) {
            let ghost before = already@;
            already.push(was_cancelled[i].clone());
            proof {
                assert(string_views(already@) =~= string_views(before).push(was_cancelled@[i as int]@));
            }
        }
        i = i + 1;
    }
    let mut unstarted: Vec<String> = Vec::new();
    let mut i: usize = 0;
    while i < plan.unstarted_runs.len()
        invariant
            i <= plan.unstarted_runs@.len(),
            string_views(unstarted@) == plan.unstarted_runs@.take(i as int).map_values(
                |x: crate::runtime::orchestration::graph::RunRef| x.run_id@,
            ),
        decreases plan.unstarted_runs@.len() - i,
    {
        let ghost before = unstarted@;
        unstarted.push(plan.unstarted_runs[i].run_id.clone());
        proof {
            assert(plan.unstarted_runs@.take(i + 1) =~= plan.unstarted_runs@.take(i as int).push(plan.unstarted_runs@[i as int]));
            assert(string_views(unstarted@) =~= string_views(before).push(plan.unstarted_runs@[i as int].run_id@));
        }
        i = i + 1;
    }
    proof {
        assert(plan.cancelled_nodes@.take(plan.cancelled_nodes@.len() as int) =~= plan.cancelled_nodes@);
        assert(plan.blocked_dependents@.take(plan.blocked_dependents@.len() as int) =~= plan.blocked_dependents@);
        assert(string_views(was_cancelled@).take(was_cancelled@.len() as int) =~= string_views(was_cancelled@));
        assert(plan.unstarted_runs@.take(plan.unstarted_runs@.len() as int) =~= plan.unstarted_runs@);
    }
    CancellationOutcome {
        cancelled,
        blocked,
        runs_cancelled: copy_strings(did_cancel),
        runs_already_cancelled: already,
        runs_left_unstarted: unstarted,
        already_cancelled: false,
    }
}

} // verus!
