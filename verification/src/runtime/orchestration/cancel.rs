//! Cancellation propagation.
//!
//! Cancelling a node stops the work it owns and everything it spawned, and is safe to ask
//! for many times at once: the plan is a function of one snapshot, so every caller in a
//! cancel storm computes the same plan; node transitions go through the graph's revision
//! compare-and-set; runs are cancelled through the runtime's one idempotent cancel.
//! Cancellation propagates down `parent_id` and blocks the cancelled nodes' dependents,
//! which can never satisfy their prerequisites.

use vstd::prelude::*;
use crate::text::{owned, str_eq, str_starts_with, has_prefix, seq_lt, str_lt};
use crate::runtime::orchestration::{node_terminal, OrchestrationError};
use crate::runtime::orchestration::queue::{lemma_filter_map_member, last_transition, lemma_last_transition, lemma_projected_find, projected_node};
use crate::runtime::orchestration::graph::{
    DependencyEdge, GraphSnapshot, NodeTransition, RunRef, WorkNodeView, closed_under_children, contains_str,
    child_of_earlier, copy_run, copy_string, dependent_ids, descends, is_child_node, distinct_ids, find_node, has_id, insert_sorted_unique, lemma_found_id,
    str_views, strictly_ascending,
};

verus! {

/// A request to cancel one node and its subtree.
#[derive(Debug, Clone, PartialEq, Eq)]
pub struct CancelRequest {
    /// Owning workspace.
    pub workspace_id: String,
    /// Node whose subtree is cancelled.
    pub node_id: String,
    /// Why, recorded on every transition and run cancellation.
    pub reason: String,
}

/// The cancellation decision for one snapshot.
#[derive(Debug, Clone, PartialEq, Eq)]
pub struct CancelPlan {
    /// Nodes of the subtree that move to `cancelled`, by id.
    pub cancelled_nodes: Vec<NodeTransition>,
    /// Dependents outside the subtree that can never satisfy their prerequisites, by id.
    pub blocked_dependents: Vec<NodeTransition>,
    /// Live runs of the subtree the run state machine can cancel, by run id.
    pub runs: Vec<RunRef>,
    /// Runs of the subtree that have not started (`CREATED`/`QUEUED`): they are never
    /// cancelled and never start, since only `ready` nodes are dispatched.
    pub unstarted_runs: Vec<RunRef>,
}

/// A copy of a transition equal to it.
fn copy_transition(t: &NodeTransition) -> (c: NodeTransition)
    ensures
        c == *t,
{
    NodeTransition {
        node_id: copy_string(&t.node_id),
        expected_revision: t.expected_revision,
        to: copy_string(&t.to),
        reason: copy_string(&t.reason),
    }
}

/// Copies of `v`, equal to it.
pub(crate) fn copy_transitions(v: &Vec<NodeTransition>) -> (c: Vec<NodeTransition>)
    ensures
        c@ == v@,
{
    let mut c: Vec<NodeTransition> = Vec::new();
    let mut i: usize = 0;
    while i < v.len()
        invariant
            i <= v@.len(),
            c@ == v@.take(i as int),
        decreases v@.len() - i,
    {
        c.push(copy_transition(&v[i]));
        proof {
            assert(v@.take(i + 1) =~= v@.take(i as int).push(v@[i as int]));
        }
        i = i + 1;
    }
    proof {
        assert(v@.take(v@.len() as int) =~= v@);
    }
    c
}

impl CancelPlan {
    /// Whether the plan changes nothing, because the work is already cancelled.
    pub fn is_empty(&self) -> (r: bool)
        ensures
            r == (self.cancelled_nodes@.len() == 0 && self.blocked_dependents@.len() == 0 && self.runs@.len() == 0
                && self.unstarted_runs@.len() == 0),
    {
        self.cancelled_nodes.len() == 0 && self.blocked_dependents.len() == 0 && self.runs.len() == 0
            && self.unstarted_runs.len() == 0
    }

    /// Every node transition the plan applies: the cancellations, then the blocks.
    pub fn transitions(&self) -> (r: Vec<NodeTransition>)
        ensures
            r@ == self.cancelled_nodes@ + self.blocked_dependents@,
    {
        let mut transitions = copy_transitions(&self.cancelled_nodes);
        let mut rest = copy_transitions(&self.blocked_dependents);
        transitions.append(&mut rest);
        transitions
    }
}

/// One node whose cancellation was applied or already present.
#[derive(Debug, Clone, PartialEq, Eq)]
pub struct CancelledNode {
    /// Node identity.
    pub node_id: String,
    /// The status it held before the plan.
    pub previous_status: String,
    /// Whether this cancellation changed the node.
    pub applied: bool,
}

/// What a cancellation pass did.
#[derive(Debug, Clone, PartialEq, Eq)]
pub struct CancellationOutcome {
    /// Nodes of the cancelled subtree.
    pub cancelled: Vec<CancelledNode>,
    /// Dependents that were blocked.
    pub blocked: Vec<String>,
    /// Runs this pass moved to `CANCELLED`.
    pub runs_cancelled: Vec<String>,
    /// Runs that were already `CANCELLED`: the pass is idempotent, not duplicating.
    pub runs_already_cancelled: Vec<String>,
    /// Runs that had not started and are therefore never dispatched.
    pub runs_left_unstarted: Vec<String>,
    /// Whether the subtree was already cancelled when the pass began.
    pub already_cancelled: bool,
}

impl CancellationOutcome {
    /// The outcome of a pass over an already cancelled subtree: nothing done.
    pub fn already_done() -> (r: Self)
        ensures
            r.cancelled@.len() == 0,
            r.blocked@.len() == 0,
            r.runs_cancelled@.len() == 0,
            r.runs_already_cancelled@.len() == 0,
            r.runs_left_unstarted@.len() == 0,
            r.already_cancelled,
    {
        CancellationOutcome {
            cancelled: Vec::new(),
            blocked: Vec::new(),
            runs_cancelled: Vec::new(),
            runs_already_cancelled: Vec::new(),
            runs_left_unstarted: Vec::new(),
            already_cancelled: true,
        }
    }
}

/// Whether `sub` is the subtree of `root`: `root` first, each id once, each later id a
/// child of an earlier one, and every child of a member a member.
pub open spec fn subtree_of(nodes: Seq<WorkNodeView>, root: Seq<char>, sub: Seq<Seq<char>>) -> bool {
    &&& sub.len() >= 1
    &&& sub[0] == root
    &&& distinct_ids(sub)
    &&& descends(nodes, sub)
    &&& closed_under_children(nodes, sub)
}

/// Whether the node `id` is to be cancelled: it is in the graph, not cancelled and not
/// terminal.
pub open spec fn cancels(nodes: Seq<WorkNodeView>, id: Seq<char>) -> bool {
    find_node(nodes, id) matches Some(n) && n.status@ != "cancelled"@ && !node_terminal(n.status@)
}

/// Whether a run status is live: running, verifying, suspended or waiting.
pub open spec fn live_run_status(s: Seq<char>) -> bool {
    s == "RUNNING"@ || s == "VERIFYING"@ || s == "SUSPENDED"@ || has_prefix(s, "WAITING_"@)
}

/// Whether a run status has not started.
pub open spec fn unstarted_run_status(s: Seq<char>) -> bool {
    s == "CREATED"@ || s == "QUEUED"@
}

/// The live run of node `id`, if any.
pub open spec fn live_run(nodes: Seq<WorkNodeView>, id: Seq<char>) -> Option<RunRef> {
    match find_node(nodes, id) {
        Some(n) => match n.run {
            Some(r) => if live_run_status(r.status@) {
                Some(r)
            } else {
                None
            },
            None => None,
        },
        None => None,
    }
}

/// The unstarted run of node `id`, if any.
pub open spec fn unstarted_run(nodes: Seq<WorkNodeView>, id: Seq<char>) -> Option<RunRef> {
    match find_node(nodes, id) {
        Some(n) => match n.run {
            Some(r) => if unstarted_run_status(r.status@) && !live_run_status(r.status@) {
                Some(r)
            } else {
                None
            },
            None => None,
        },
        None => None,
    }
}

/// Whether `x` is a dependent of some member of `sub`, outside `sub`, in the graph and
/// neither terminal nor already blocked: a dependent the cancellation blocks.
pub open spec fn blocks_dependent(nodes: Seq<WorkNodeView>, edges: Seq<DependencyEdge>, sub: Seq<Seq<char>>, x: Seq<char>) -> bool {
    &&& dependent_of_first(edges, sub, sub.len() as int, x)
    &&& blockable(nodes, sub, x)
}

/// Whether `x` depends on one of the first `n` members of `sub`.
pub open spec fn dependent_of_first(edges: Seq<DependencyEdge>, sub: Seq<Seq<char>>, n: int, x: Seq<char>) -> bool {
    exists|q: int| 0 <= q < n && has_id(dependent_ids(edges, #[trigger] sub[q]), x)
}

/// Whether `x` is outside `sub`, in the graph and neither terminal nor already blocked.
pub open spec fn blockable(nodes: Seq<WorkNodeView>, sub: Seq<Seq<char>>, x: Seq<char>) -> bool {
    &&& !has_id(sub, x)
    &&& find_node(nodes, x) matches Some(n) && !node_terminal(n.status@) && n.status@ != "blocked"@
}

/// `x` inserted into `s` after every run whose id does not sort after it.
pub open spec fn run_insert(s: Seq<RunRef>, x: RunRef) -> Seq<RunRef>
    decreases s.len(),
{
    if s.len() == 0 {
        seq![x]
    } else if seq_lt(x.run_id@, s[0].run_id@) {
        seq![x] + s
    } else {
        seq![s[0]] + run_insert(s.drop_first(), x)
    }
}

/// The runs ordered by run id, runs with equal ids in their original order.
pub open spec fn by_run_id(s: Seq<RunRef>) -> Seq<RunRef>
    decreases s.len(),
{
    if s.len() == 0 {
        s
    } else {
        run_insert(by_run_id(s.drop_last()), s.last())
    }
}

proof fn lemma_run_insert_at(s: Seq<RunRef>, x: RunRef, p: int)
    requires
        0 <= p <= s.len(),
        forall|k: int| 0 <= k < p ==> !seq_lt(x.run_id@, (#[trigger] s[k]).run_id@),
        p < s.len() ==> seq_lt(x.run_id@, s[p].run_id@),
    ensures
        run_insert(s, x) == s.insert(p, x),
    decreases s.len(),
{
    if s.len() == 0 {
        assert(s.insert(p, x) =~= seq![x]);
    } else if p == 0 {
        assert(s.insert(0, x) =~= seq![x] + s);
    } else {
        let t = s.drop_first();
        assert forall|k: int| 0 <= k < p - 1 implies !seq_lt(x.run_id@, (#[trigger] t[k]).run_id@) by {
            assert(t[k] == s[k + 1]);
        }
        if p - 1 < t.len() {
            assert(t[p - 1] == s[p]);
        }
        lemma_run_insert_at(t, x, p - 1);
        assert(s.insert(p, x) =~= seq![s[0]] + t.insert(p - 1, x));
    }
}

/// The runs of `v` ordered by run id, equal ids in their original order.
fn sort_runs(v: &Vec<RunRef>) -> (r: Vec<RunRef>)
    ensures
        r@ == by_run_id(v@),
{
    let mut out: Vec<RunRef> = Vec::new();
    let mut i: usize = 0;
    proof {
        assert(v@.take(0) =~= Seq::<RunRef>::empty());
    }
    while i < v.len()
        invariant
            i <= v@.len(),
            out@ == by_run_id(v@.take(i as int)),
        decreases v@.len() - i,
    {
        let x = copy_run(&v[i]);
        let mut p: usize = 0;
        while p < out.len() && !str_lt(x.run_id.as_str(), out[p].run_id.as_str())
            invariant
                p <= out@.len(),
                forall|k: int| 0 <= k < p ==> !seq_lt(x.run_id@, (#[trigger] out@[k]).run_id@),
            decreases out@.len() - p,
        {
            p = p + 1;
        }
        proof {
            lemma_run_insert_at(out@, x, p as int);
            assert(v@.take(i + 1).drop_last() =~= v@.take(i as int));
            assert(v@.take(i + 1).last() == x);
        }
        out.insert(p, x);
        i = i + 1;
    }
    proof {
        assert(v@.take(v@.len() as int) =~= v@);
    }
    out
}

/// The ids of a sequence of transitions.
pub open spec fn transition_ids(ts: Seq<NodeTransition>) -> Seq<Seq<char>> {
    ts.map_values(|t: NodeTransition| t.node_id@)
}

/// Whether `t` cancels its node as `reason` asks, against the node's revision.
pub open spec fn cancels_with(nodes: Seq<WorkNodeView>, t: NodeTransition, reason: Seq<char>) -> bool {
    &&& find_node(nodes, t.node_id@) matches Some(n) && t.expected_revision == n.revision
    &&& t.to@ == "cancelled"@
    &&& t.reason@ == reason
}

/// The reason recorded on a dependent blocked by a cancellation for `reason`.
pub open spec fn blocked_reason(reason: Seq<char>) -> Seq<char> {
    "prerequisite cancelled: "@ + reason
}

/// Whether `t` blocks its node for a cancellation for `reason`, against the node's revision.
pub open spec fn blocks_with(nodes: Seq<WorkNodeView>, t: NodeTransition, reason: Seq<char>) -> bool {
    &&& find_node(nodes, t.node_id@) matches Some(n) && t.expected_revision == n.revision
    &&& t.to@ == "blocked"@
    &&& t.reason@ == blocked_reason(reason)
}

/// Whether `plan` is the cancellation plan of subtree `sub` for `reason`: the members to
/// cancel and the dependents to block, each once and by id, and the subtree's live and
/// unstarted runs by run id.
pub open spec fn cancel_plan_for(nodes: Seq<WorkNodeView>, edges: Seq<DependencyEdge>, sub: Seq<Seq<char>>, reason: Seq<char>, plan: CancelPlan) -> bool {
    &&& strictly_ascending(transition_ids(plan.cancelled_nodes@))
    &&& forall|x: Seq<char>| #[trigger] has_id(transition_ids(plan.cancelled_nodes@), x) <==> (has_id(sub, x) && cancels(nodes, x))
    &&& forall|k: int| 0 <= k < plan.cancelled_nodes@.len() ==> cancels_with(nodes, #[trigger] plan.cancelled_nodes@[k], reason)
    &&& strictly_ascending(transition_ids(plan.blocked_dependents@))
    &&& forall|x: Seq<char>| #[trigger] has_id(transition_ids(plan.blocked_dependents@), x) <==> blocks_dependent(nodes, edges, sub, x)
    &&& forall|k: int| 0 <= k < plan.blocked_dependents@.len() ==> blocks_with(nodes, #[trigger] plan.blocked_dependents@[k], reason)
    &&& plan.runs@ == by_run_id(sub.filter_map(|id: Seq<char>| live_run(nodes, id)))
    &&& plan.unstarted_runs@ == by_run_id(sub.filter_map(|id: Seq<char>| unstarted_run(nodes, id)))
}


/// Inserting a run keeps the runs already there and adds it.
proof fn lemma_run_insert_members(s: Seq<RunRef>, x: RunRef, y: RunRef)
    ensures
        run_insert(s, x).contains(y) <==> (s.contains(y) || y == x),
    decreases s.len(),
{
    if s.len() == 0 {
        assert(run_insert(s, x) =~= seq![x]);
        assert(run_insert(s, x)[0] == x);
        if run_insert(s, x).contains(y) {
            assert(run_insert(s, x)[0] == y);
        }
    } else if seq_lt(x.run_id@, s[0].run_id@) {
        let r = seq![x] + s;
        if r.contains(y) {
            let k = choose|k: int| 0 <= k < r.len() && r[k] == y;
            if k > 0 {
                assert(s[k - 1] == y);
            }
        }
        if s.contains(y) {
            let k = choose|k: int| 0 <= k < s.len() && s[k] == y;
            assert(r[k + 1] == y);
        }
        assert(r[0] == x);
    } else {
        let t = s.drop_first();
        lemma_run_insert_members(t, x, y);
        let r = seq![s[0]] + run_insert(t, x);
        if r.contains(y) {
            let k = choose|k: int| 0 <= k < r.len() && r[k] == y;
            if k > 0 {
                assert(run_insert(t, x)[k - 1] == y);
            } else {
                assert(s[0] == y);
            }
        }
        if s.contains(y) {
            let k = choose|k: int| 0 <= k < s.len() && s[k] == y;
            if k > 0 {
                assert(t[k - 1] == y);
                let q = choose|q: int| 0 <= q < run_insert(t, x).len() && run_insert(t, x)[q] == y;
                assert(r[q + 1] == y);
            } else {
                assert(r[0] == y);
            }
        }
        if y == x {
            let q = choose|q: int| 0 <= q < run_insert(t, x).len() && run_insert(t, x)[q] == y;
            assert(r[q + 1] == y);
        }
    }
}

/// Ordering runs by id keeps exactly the runs there were.
proof fn lemma_by_run_id_members(s: Seq<RunRef>, y: RunRef)
    ensures
        by_run_id(s).contains(y) <==> s.contains(y),
    decreases s.len(),
{
    if s.len() > 0 {
        let d = s.drop_last();
        lemma_by_run_id_members(d, y);
        lemma_run_insert_members(by_run_id(d), s.last(), y);
        if d.contains(y) {
            let k = choose|k: int| 0 <= k < d.len() && d[k] == y;
            assert(s[k] == y);
        }
        if s.contains(y) {
            let k = choose|k: int| 0 <= k < s.len() && s[k] == y;
            if k < s.len() - 1 {
                assert(d[k] == y);
            }
        }
    }
}

/// A live run status and a not-yet-started one are never the same.
proof fn lemma_live_not_unstarted(s: Seq<char>)
    ensures
        live_run_status(s) ==> !(s == "CREATED"@ || s == "QUEUED"@),
{
    reveal_strlit("CREATED");
    reveal_strlit("QUEUED");
    reveal_strlit("RUNNING");
    reveal_strlit("VERIFYING");
    reveal_strlit("SUSPENDED");
    reveal_strlit("WAITING_");
    if live_run_status(s) && (s == "CREATED"@ || s == "QUEUED"@) {
        assert(s[0] == 'C' || s[0] == 'Q');
        if has_prefix(s, "WAITING_"@) {
            assert(s.take(8)[0] == s[0]);
        }
    }
}

/// Every run a cancellation stops is gone for good: a node of the cancelled subtree whose
/// run is running, verifying, suspended or parked on a wait has that run in the plan's
/// runs to cancel, and a run that has not started (created or queued) is never among
/// them: it is reported as unstarted instead.
pub proof fn law_cancellation_stops_every_live_run(
    nodes: Seq<WorkNodeView>,
    edges: Seq<DependencyEdge>,
    sub: Seq<Seq<char>>,
    reason: Seq<char>,
    plan: CancelPlan,
    x: Seq<char>,
)
    requires
        cancel_plan_for(nodes, edges, sub, reason, plan),
        has_id(sub, x),
    ensures
        ({
            let run = find_node(nodes, x)->0.run->0;
            find_node(nodes, x) is Some && find_node(nodes, x)->0.run is Some && (run.status@ == "RUNNING"@
                || run.status@ == "VERIFYING"@ || run.status@ == "SUSPENDED"@ || has_prefix(run.status@, "WAITING_"@))
                ==> plan.runs@.contains(run)
        }),
        ({
            let run = find_node(nodes, x)->0.run->0;
            find_node(nodes, x) is Some && find_node(nodes, x)->0.run is Some && (run.status@ == "CREATED"@
                || run.status@ == "QUEUED"@) ==> plan.unstarted_runs@.contains(run)
        }),
        forall|k: int| 0 <= k < plan.runs@.len() ==> !((#[trigger] plan.runs@[k]).status@ == "CREATED"@
            || plan.runs@[k].status@ == "QUEUED"@),
{
    reveal_strlit("CREATED");
    reveal_strlit("QUEUED");
    reveal_strlit("RUNNING");
    reveal_strlit("VERIFYING");
    reveal_strlit("SUSPENDED");
    reveal_strlit("WAITING_");
    let f = |id: Seq<char>| live_run(nodes, id);
    let g = |id: Seq<char>| unstarted_run(nodes, id);
    let k = choose|k: int| 0 <= k < sub.len() && sub[k] == x;
    assert(sub.contains(x));
    if let Some(n) = find_node(nodes, x) {
        if let Some(run) = n.run {
            if live_run_status(run.status@) {
                assert(f(x) == Some(run));
                lemma_filter_map_member(sub, f, x, run);
                lemma_by_run_id_members(sub.filter_map(f), run);
            }
            if run.status@ == "CREATED"@ || run.status@ == "QUEUED"@ {
                lemma_live_not_unstarted(run.status@);
                assert(g(x) == Some(run));
                lemma_filter_map_member(sub, g, x, run);
                lemma_by_run_id_members(sub.filter_map(g), run);
            }
        }
    }
    assert forall|k: int| 0 <= k < plan.runs@.len() implies !((#[trigger] plan.runs@[k]).status@ == "CREATED"@
        || plan.runs@[k].status@ == "QUEUED"@) by {
        let run = plan.runs@[k];
        assert(plan.runs@.contains(run));
        lemma_by_run_id_members(sub.filter_map(f), run);
        sub.lemma_filter_map_contains(f, run);
        let id = choose|id: Seq<char>| sub.contains(id) && f(id) == Some(run);
        assert(live_run_status(run.status@));
        lemma_live_not_unstarted(run.status@);
    }
}

/// Whether run status `s` is live.
fn is_live_run_status(s: &str) -> (r: bool)
    ensures
        r == live_run_status(s@),
{
    str_eq(s, "RUNNING") || str_eq(s, "VERIFYING") || str_eq(s, "SUSPENDED") || str_starts_with(s, "WAITING_")
}

/// Whether run status `s` has not started.
fn is_unstarted_run_status(s: &str) -> (r: bool)
    ensures
        r == unstarted_run_status(s@),
{
    str_eq(s, "CREATED") || str_eq(s, "QUEUED")
}

/// Membership in a prefix one longer.
proof fn lemma_take_one_more(s: Seq<Seq<char>>, q: int, x: Seq<char>)
    requires
        0 <= q < s.len(),
    ensures
        has_id(s.take(q + 1), x) <==> (has_id(s.take(q), x) || x == s[q]),
{
    let t0 = s.take(q);
    let t1 = s.take(q + 1);
    if has_id(t1, x) {
        let k = choose|k: int| 0 <= k < t1.len() && t1[k] == x;
        if k < q {
            assert(t0[k] == x);
        }
    }
    if has_id(t0, x) {
        let k = choose|k: int| 0 <= k < t0.len() && t0[k] == x;
        assert(t1[k] == x);
    }
    if x == s[q] {
        assert(t1[q] == x);
    }
}

/// The live and unstarted runs of the subtree, and the ids of its members to cancel.
fn collect_subtree<'a>(snapshot: &'a GraphSnapshot, subtree: &Vec<&'a str>) -> (r: (Vec<&'a str>, Vec<RunRef>, Vec<RunRef>))
    ensures
        strictly_ascending(str_views(r.0@)),
        forall|x: Seq<char>| #[trigger] has_id(str_views(r.0@), x) <==> (has_id(str_views(subtree@), x) && cancels(snapshot.nodes@, x)),
        r.1@ == str_views(subtree@).filter_map(|id: Seq<char>| live_run(snapshot.nodes@, id)),
        r.2@ == str_views(subtree@).filter_map(|id: Seq<char>| unstarted_run(snapshot.nodes@, id)),
{
    let ghost nodes = snapshot.nodes@;
    let ghost sv = str_views(subtree@);
    let ghost fl = |id: Seq<char>| live_run(nodes, id);
    let ghost fu = |id: Seq<char>| unstarted_run(nodes, id);
    let mut cancel_ids: Vec<&str> = Vec::new();
    let mut live: Vec<RunRef> = Vec::new();
    let mut unstarted: Vec<RunRef> = Vec::new();
    let mut q: usize = 0;
    proof {
        assert(sv.take(0).filter_map(fl) =~= Seq::<RunRef>::empty());
        assert(sv.take(0).filter_map(fu) =~= Seq::<RunRef>::empty());
    }
    while q < subtree.len()
        invariant
            q <= subtree@.len(),
            nodes == snapshot.nodes@,
            sv == str_views(subtree@),
            fl == (|id: Seq<char>| live_run(nodes, id)),
            fu == (|id: Seq<char>| unstarted_run(nodes, id)),
            strictly_ascending(str_views(cancel_ids@)),
            forall|x: Seq<char>| #[trigger] has_id(str_views(cancel_ids@), x) <==> (has_id(sv.take(q as int), x) && cancels(nodes, x)),
            live@ == sv.take(q as int).filter_map(fl),
            unstarted@ == sv.take(q as int).filter_map(fu),
        decreases subtree@.len() - q,
    {
        let id = subtree[q];
        let ghost c0 = str_views(cancel_ids@);
        proof {
            assert(sv[q as int] == id@);
            assert(sv.take(q + 1).drop_last() =~= sv.take(q as int));
            assert(sv.take(q + 1).last() == id@);
            lemma_found_id(nodes, id@);
            reveal_strlit("cancelled");
        }
        match snapshot.node(id) {
            Some(node) => {
                if !str_eq(node.status.as_str(), "cancelled") && !node.is_terminal() {
                    insert_sorted_unique(&mut cancel_ids, id);
                }
                match &node.run {
                    Some(run) => {
                        if is_live_run_status(run.status.as_str()) {
                            live.push(copy_run(run));
                        } else if is_unstarted_run_status(run.status.as_str()) {
                            unstarted.push(copy_run(run));
                        }
                    },
                    None => {},
                }
            },
            None => {},
        }
        proof {
            assert(forall|y: Seq<char>| has_id(str_views(cancel_ids@), y) <==> (has_id(c0, y) || (y == id@ && cancels(nodes, id@))));
            assert forall|x: Seq<char>| has_id(str_views(cancel_ids@), x) <==> (has_id(sv.take(q + 1), x) && cancels(nodes, x)) by {
                lemma_take_one_more(sv, q as int, x);
            }
        }
        q = q + 1;
    }
    proof {
        assert(sv.take(sv.len() as int) =~= sv);
    }
    (cancel_ids, live, unstarted)
}

/// The dependents of the subtree's members that the cancellation blocks, each once, by id.
fn blocked_dependent_ids<'a>(snapshot: &'a GraphSnapshot, subtree: &Vec<&'a str>) -> (r: Vec<&'a str>)
    ensures
        strictly_ascending(str_views(r@)),
        forall|x: Seq<char>| #[trigger] has_id(str_views(r@), x) <==> blocks_dependent(snapshot.nodes@, snapshot.edges@, str_views(subtree@), x),
{
    let ghost nodes = snapshot.nodes@;
    let ghost edges = snapshot.edges@;
    let ghost sv = str_views(subtree@);
    let mut blocked: Vec<&str> = Vec::new();
    let mut q: usize = 0;
    while q < subtree.len()
        invariant
            q <= subtree@.len(),
            nodes == snapshot.nodes@,
            edges == snapshot.edges@,
            sv == str_views(subtree@),
            strictly_ascending(str_views(blocked@)),
            forall|x: Seq<char>| #[trigger] has_id(str_views(blocked@), x) <==> (dependent_of_first(edges, sv, q as int, x) && blockable(nodes, sv, x)),
        decreases subtree@.len() - q,
    {
        let deps = snapshot.dependents(subtree[q]);
        let ghost dv = str_views(deps@);
        proof {
            assert(sv[q as int] == subtree@[q as int]@);
        }
        let mut m: usize = 0;
        proof {
            assert(dv.take(0) =~= Seq::<Seq<char>>::empty());
            assert forall|x: Seq<char>| !has_id(dv.take(0), x) by {}
            assert forall|x: Seq<char>| #[trigger] has_id(str_views(blocked@), x) <==> ((dependent_of_first(edges, sv, q as int, x) || has_id(
                    dv.take(0),
                    x,
                )) && blockable(nodes, sv, x)) by {
                assert(has_id(str_views(blocked@), x) <==> (dependent_of_first(edges, sv, q as int, x) && blockable(nodes, sv, x)));
                assert(!has_id(dv.take(0), x));
            }
        }
        while m < deps.len()
            invariant
                q < subtree@.len(),
                m <= deps@.len(),
                nodes == snapshot.nodes@,
                edges == snapshot.edges@,
                sv == str_views(subtree@),
                dv == str_views(deps@),
                dv == dependent_ids(edges, sv[q as int]),
                strictly_ascending(str_views(blocked@)),
                forall|x: Seq<char>| #[trigger] has_id(str_views(blocked@), x) <==> ((dependent_of_first(edges, sv, q as int, x) || has_id(
                    dv.take(m as int),
                    x,
                )) && blockable(nodes, sv, x)),
            decreases deps@.len() - m,
        {
            let d = deps[m];
            let ghost b0 = str_views(blocked@);
            proof {
                assert(dv[m as int] == d@);
                lemma_found_id(nodes, d@);
                reveal_strlit("blocked");
            }
            if !contains_str(subtree, d) {
                match snapshot.node(d) {
                    Some(node) => {
                        if !node.is_terminal() && !str_eq(node.status.as_str(), "blocked") {
                            insert_sorted_unique(&mut blocked, d);
                        }
                    },
                    None => {},
                }
            }
            proof {
                assert(forall|y: Seq<char>| #[trigger] has_id(str_views(blocked@), y) <==> (has_id(b0, y) || (y == d@ && blockable(nodes, sv, d@))));
                assert forall|x: Seq<char>| #[trigger] has_id(str_views(blocked@), x) <==> ((dependent_of_first(edges, sv, q as int, x)
                    || has_id(dv.take(m + 1), x)) && blockable(nodes, sv, x)) by {
                    lemma_take_one_more(dv, m as int, x);
                }
            }
            m = m + 1;
        }
        proof {
            assert(dv.take(dv.len() as int) =~= dv);
            assert forall|x: Seq<char>| #[trigger] dependent_of_first(edges, sv, q + 1, x) <==> (dependent_of_first(edges, sv, q as int, x)
                || has_id(dv, x)) by {
                if dependent_of_first(edges, sv, q + 1, x) {
                    let q2 = choose|q2: int| 0 <= q2 < q + 1 && has_id(dependent_ids(edges, #[trigger] sv[q2]), x);
                    if q2 < q {
                        assert(dependent_of_first(edges, sv, q as int, x));
                    }
                }
                if dependent_of_first(edges, sv, q as int, x) {
                    let q2 = choose|q2: int| 0 <= q2 < q && has_id(dependent_ids(edges, #[trigger] sv[q2]), x);
                    assert(dependent_of_first(edges, sv, q + 1, x));
                }
                if has_id(dv, x) {
                    assert(has_id(dependent_ids(edges, sv[q as int]), x));
                }
            }
        }
        q = q + 1;
    }
    blocked
}

/// The plan that cancels the subtree of `request.node_id` and blocks its dependents;
/// refused when the node is not in the snapshot.
pub fn cancel_plan(snapshot: &GraphSnapshot, request: &CancelRequest) -> (r: Result<CancelPlan, OrchestrationError>)
    ensures
        match r {
            Ok(plan) => find_node(snapshot.nodes@, request.node_id@) is Some && exists|sub: Seq<Seq<char>>|
                #[trigger] subtree_of(snapshot.nodes@, request.node_id@, sub) && cancel_plan_for(
                    snapshot.nodes@,
                    snapshot.edges@,
                    sub,
                    request.reason@,
                    plan,
                ),
            Err(e) => find_node(snapshot.nodes@, request.node_id@) is None && (e matches OrchestrationError::NotFound {
                entity,
                id,
            } && entity@ == "work_node"@ && id@ == request.node_id@),
        },
{
    let ghost nodes = snapshot.nodes@;
    let root = match snapshot.node(request.node_id.as_str()) {
        Some(n) => n,
        None => {
            return Err(OrchestrationError::NotFound { entity: owned("work_node"), id: request.node_id.clone() });
        },
    };
    proof {
        lemma_found_id(nodes, request.node_id@);
    }
    let subtree = snapshot.subtree(root.id.as_str());
    let ghost sv = str_views(subtree@);
    let (cancel_ids, live, unstarted) = collect_subtree(snapshot, &subtree);
    let blocked_ids = blocked_dependent_ids(snapshot, &subtree);

    let mut cancelled_nodes: Vec<NodeTransition> = Vec::new();
    let mut k: usize = 0;
    while k < cancel_ids.len()
        invariant
            k <= cancel_ids@.len(),
            nodes == snapshot.nodes@,
            forall|x: Seq<char>| #[trigger] has_id(str_views(cancel_ids@), x) <==> (has_id(sv, x) && cancels(nodes, x)),
            transition_ids(cancelled_nodes@) == str_views(cancel_ids@).take(k as int),
            forall|j: int| 0 <= j < cancelled_nodes@.len() ==> cancels_with(nodes, #[trigger] cancelled_nodes@[j], request.reason@),
        decreases cancel_ids@.len() - k,
    {
        let id = cancel_ids[k];
        proof {
            assert(str_views(cancel_ids@)[k as int] == id@);
            assert(has_id(str_views(cancel_ids@), id@));
            lemma_found_id(nodes, id@);
            reveal_strlit("cancelled");
        }
        let ghost t0 = cancelled_nodes@;
        match snapshot.node(id) {
            Some(node) => {
                cancelled_nodes.push(NodeTransition {
                    node_id: node.id.clone(),
                    expected_revision: node.revision,
                    to: owned("cancelled"),
                    reason: request.reason.clone(),
                });
            },
            None => {},
        }
        proof {
            assert(cancelled_nodes@.len() == t0.len() + 1);
            assert(transition_ids(cancelled_nodes@) =~= transition_ids(t0).push(id@));
            assert(str_views(cancel_ids@).take(k + 1) =~= str_views(cancel_ids@).take(k as int).push(id@));
        }
        k = k + 1;
    }
    proof {
        assert(str_views(cancel_ids@).take(cancel_ids@.len() as int) =~= str_views(cancel_ids@));
    }

    let mut msg = owned("prerequisite cancelled: ");
    msg.append(request.reason.as_str());
    let mut blocked_dependents: Vec<NodeTransition> = Vec::new();
    let mut k: usize = 0;
    while k < blocked_ids.len()
        invariant
            k <= blocked_ids@.len(),
            nodes == snapshot.nodes@,
            msg@ == blocked_reason(request.reason@),
            forall|x: Seq<char>| #[trigger] has_id(str_views(blocked_ids@), x) <==> blocks_dependent(nodes, snapshot.edges@, sv, x),
            transition_ids(blocked_dependents@) == str_views(blocked_ids@).take(k as int),
            forall|j: int| 0 <= j < blocked_dependents@.len() ==> blocks_with(nodes, #[trigger] blocked_dependents@[j], request.reason@),
        decreases blocked_ids@.len() - k,
    {
        let id = blocked_ids[k];
        proof {
            assert(str_views(blocked_ids@)[k as int] == id@);
            assert(has_id(str_views(blocked_ids@), id@));
            lemma_found_id(nodes, id@);
            reveal_strlit("blocked");
        }
        let ghost t0 = blocked_dependents@;
        match snapshot.node(id) {
            Some(node) => {
                blocked_dependents.push(NodeTransition {
                    node_id: node.id.clone(),
                    expected_revision: node.revision,
                    to: owned("blocked"),
                    reason: copy_string(&msg),
                });
            },
            None => {},
        }
        proof {
            assert(blocked_dependents@.len() == t0.len() + 1);
            assert(transition_ids(blocked_dependents@) =~= transition_ids(t0).push(id@));
            assert(str_views(blocked_ids@).take(k + 1) =~= str_views(blocked_ids@).take(k as int).push(id@));
        }
        k = k + 1;
    }
    proof {
        assert(str_views(blocked_ids@).take(blocked_ids@.len() as int) =~= str_views(blocked_ids@));
    }
    let plan = CancelPlan {
        cancelled_nodes,
        blocked_dependents,
        runs: sort_runs(&live),
        unstarted_runs: sort_runs(&unstarted),
    };
    proof {
        assert(subtree_of(nodes, request.node_id@, sv));
        assert(cancel_plan_for(nodes, snapshot.edges@, sv, request.reason@, plan));
    }
    Ok(plan)
}


/// Every member of one subtree of `root` is a member of any other.
proof fn lemma_subtree_members(nodes: Seq<WorkNodeView>, root: Seq<char>, a: Seq<Seq<char>>, b: Seq<Seq<char>>, k: int)
    requires
        subtree_of(nodes, root, a),
        subtree_of(nodes, root, b),
        0 <= k < a.len(),
    ensures
        has_id(b, a[k]),
    decreases k,
{
    if k == 0 {
        assert(b[0] == a[0]);
    } else {
        assert(child_of_earlier(nodes, a, k));
        let (p, j) = choose|p: int, j: int| 0 <= p < k && #[trigger] is_child_node(nodes, j, a[p]) && nodes[j].id@ == a[k];
        lemma_subtree_members(nodes, root, a, b, p);
        let q = choose|q: int| 0 <= q < b.len() && b[q] == a[p];
        assert(is_child_node(nodes, j, b[q]));
    }
}

/// Applying transitions keeps a subtree a subtree: ids and parents do not change.
proof fn lemma_subtree_survives(nodes: Seq<WorkNodeView>, ts: Seq<NodeTransition>, root: Seq<char>, sub: Seq<Seq<char>>)
    requires
        subtree_of(nodes, root, sub),
    ensures
        subtree_of(nodes.map_values(|n: WorkNodeView| projected_node(ts, n)), root, sub),
{
    let after = nodes.map_values(|n: WorkNodeView| projected_node(ts, n));
    assert forall|j: int, p: Seq<char>| #[trigger] is_child_node(after, j, p) == is_child_node(nodes, j, p) by {
        if 0 <= j < nodes.len() {
            assert(after[j].parent_id == nodes[j].parent_id);
        }
    }
    assert forall|k: int| 1 <= k < sub.len() implies #[trigger] child_of_earlier(after, sub, k) by {
        assert(child_of_earlier(nodes, sub, k));
        let (p, j) = choose|p: int, j: int| 0 <= p < k && #[trigger] is_child_node(nodes, j, sub[p]) && nodes[j].id@ == sub[k];
        assert(is_child_node(after, j, sub[p]));
        assert(after[j].id@ == nodes[j].id@);
    }
    assert forall|k: int, j: int| 0 <= k < sub.len() && #[trigger] is_child_node(after, j, sub[k]) implies has_id(sub, after[j].id@) by {
        assert(is_child_node(nodes, j, sub[k]));
        assert(after[j].id@ == nodes[j].id@);
    }
}

/// A transition of `ts` for `x`, if any, is a cancellation of a member or a block of a
/// dependent outside the subtree.
proof fn lemma_plan_transition(nodes: Seq<WorkNodeView>, edges: Seq<DependencyEdge>, sub: Seq<Seq<char>>, reason: Seq<char>, plan: CancelPlan, t: NodeTransition)
    requires
        cancel_plan_for(nodes, edges, sub, reason, plan),
        (plan.cancelled_nodes@ + plan.blocked_dependents@).contains(t),
    ensures
        has_id(sub, t.node_id@) ==> t.to@ == "cancelled"@,
        !has_id(sub, t.node_id@) ==> t.to@ == "blocked"@ && blocks_dependent(nodes, edges, sub, t.node_id@),
        has_id(sub, t.node_id@) ==> cancels(nodes, t.node_id@),
{
    let c = plan.cancelled_nodes@;
    let b = plan.blocked_dependents@;
    let k = choose|k: int| 0 <= k < (c + b).len() && (c + b)[k] == t;
    if k < c.len() {
        assert(c[k] == t);
        assert(cancels_with(nodes, c[k], reason));
        assert(transition_ids(c)[k] == t.node_id@);
        assert(has_id(transition_ids(c), t.node_id@));
    } else {
        assert(b[k - c.len()] == t);
        assert(blocks_with(nodes, b[k - c.len()], reason));
        assert(transition_ids(b)[k - c.len()] == t.node_id@);
        assert(has_id(transition_ids(b), t.node_id@));
    }
}

/// A strictly ascending id sequence without members is empty.
proof fn lemma_no_members(ids: Seq<Seq<char>>)
    requires
        forall|x: Seq<char>| !has_id(ids, x),
    ensures
        ids.len() == 0,
{
    if ids.len() > 0 {
        assert(has_id(ids, ids[0]));
    }
}

/// Cancellation is idempotent: once a plan's node transitions are applied, planning the
/// same cancellation again over the result cancels and blocks nothing more.
pub proof fn law_cancellation_is_idempotent(
    nodes: Seq<WorkNodeView>,
    edges: Seq<DependencyEdge>,
    root: Seq<char>,
    sub: Seq<Seq<char>>,
    reason: Seq<char>,
    plan: CancelPlan,
    sub_again: Seq<Seq<char>>,
    reason_again: Seq<char>,
    again: CancelPlan,
)
    requires
        subtree_of(nodes, root, sub),
        cancel_plan_for(nodes, edges, sub, reason, plan),
        subtree_of(nodes.map_values(|n: WorkNodeView| projected_node(plan.cancelled_nodes@ + plan.blocked_dependents@, n)), root, sub_again),
        cancel_plan_for(
            nodes.map_values(|n: WorkNodeView| projected_node(plan.cancelled_nodes@ + plan.blocked_dependents@, n)),
            edges,
            sub_again,
            reason_again,
            again,
        ),
    ensures
        again.cancelled_nodes@.len() == 0,
        again.blocked_dependents@.len() == 0,
{
    let ts = plan.cancelled_nodes@ + plan.blocked_dependents@;
    let after = nodes.map_values(|n: WorkNodeView| projected_node(ts, n));
    reveal_strlit("cancelled");
    reveal_strlit("blocked");
    assert("cancelled"@.len() == 9 && "blocked"@.len() == 7);
    lemma_subtree_survives(nodes, ts, root, sub);
    assert forall|x: Seq<char>| #[trigger] has_id(sub_again, x) <==> has_id(sub, x) by {
        if has_id(sub_again, x) {
            let k = choose|k: int| 0 <= k < sub_again.len() && sub_again[k] == x;
            lemma_subtree_members(after, root, sub_again, sub, k);
        }
        if has_id(sub, x) {
            let k = choose|k: int| 0 <= k < sub.len() && sub[k] == x;
            lemma_subtree_members(after, root, sub, sub_again, k);
        }
    }
    assert forall|x: Seq<char>| !has_id(transition_ids(again.cancelled_nodes@), x) by {
        if has_id(sub, x) {
            lemma_projected_find(nodes, ts, x);
            lemma_last_transition(ts, x);
            if let Some(t) = last_transition(ts, x) {
                lemma_plan_transition(nodes, edges, sub, reason, plan, t);
            } else if cancels(nodes, x) {
                assert(has_id(transition_ids(plan.cancelled_nodes@), x));
                let k = choose|k: int| 0 <= k < transition_ids(plan.cancelled_nodes@).len() && transition_ids(
                    plan.cancelled_nodes@,
                )[k] == x;
                assert(ts[k] == plan.cancelled_nodes@[k]);
                assert(ts[k].node_id@ == x);
            }
        }
    }
    assert forall|x: Seq<char>| !has_id(transition_ids(again.blocked_dependents@), x) by {
        if blocks_dependent(after, edges, sub_again, x) {
            let q = choose|q: int| 0 <= q < sub_again.len() && has_id(dependent_ids(edges, #[trigger] sub_again[q]), x);
            assert(has_id(sub_again, sub_again[q]));
            assert(has_id(sub, sub_again[q]));
            let q2 = choose|q2: int| 0 <= q2 < sub.len() && sub[q2] == sub_again[q];
            assert(dependent_of_first(edges, sub, sub.len() as int, x));
            lemma_projected_find(nodes, ts, x);
            lemma_last_transition(ts, x);
            if let Some(t) = last_transition(ts, x) {
                lemma_plan_transition(nodes, edges, sub, reason, plan, t);
            } else if blocks_dependent(nodes, edges, sub, x) {
                assert(has_id(transition_ids(plan.blocked_dependents@), x));
                let k = choose|k: int| 0 <= k < transition_ids(plan.blocked_dependents@).len() && transition_ids(
                    plan.blocked_dependents@,
                )[k] == x;
                assert(ts[plan.cancelled_nodes@.len() + k] == plan.blocked_dependents@[k]);
                assert(ts[plan.cancelled_nodes@.len() + k].node_id@ == x);
            }
        }
    }
    lemma_no_members(transition_ids(again.cancelled_nodes@));
    lemma_no_members(transition_ids(again.blocked_dependents@));
}

} // verus!
