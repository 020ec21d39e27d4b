//! Ready-queue selection, dependency release and fan-in joins.
//!
//! Everything here is a function of one graph snapshot: the same graph gives the same
//! selection in the same order. That is what makes "no dependent work starts before its
//! prerequisites" and "ordering is deterministic" checkable without a database.

use vstd::prelude::*;
use crate::text::{owned, str_eq, str_lt, seq_lt};
use crate::runtime::orchestration::{node_terminal, OrchestrationError};
use crate::runtime::orchestration::graph::{
    DependencyEdge, GraphSnapshot, NodeTransition, RunRef, WorkNodeView, child_ids, child_of, copy_run, insert_sorted_unique, strictly_ascending, find_node,
    first_unsatisfied, first_node_at, has_id, distinct_ids, lemma_first_node, is_dependency, node_parked, contains_str, unmarked, lemma_mark, copy_node, copy_edge, copy_string, prerequisite_ids, str_views,
};
use crate::policy::lifecycle::string_views;
use crate::policy::rules::deref_all;

verus! {

/// A queued run the selection admits.
#[derive(Debug, Clone, PartialEq, Eq)]
pub struct DispatchCandidate {
    /// Node the run works.
    pub node_id: String,
    /// Node priority.
    pub priority: i16,
    /// The run.
    pub run: RunRef,
}

/// A ready node the selection could not start now.
#[derive(Debug, Clone, PartialEq, Eq)]
pub struct Deferred {
    /// The node.
    pub node_id: String,
    /// Why it waits.
    pub reason: DeferralReason,
}

/// Why a ready node was deferred.
#[derive(Debug, Clone, Copy, PartialEq, Eq, Structural)]
pub enum DeferralReason {
    /// The concurrency budget has no room.
    Capacity,
    /// Another orchestrator selected it.
    SelectedElsewhere,
}

/// What one selection pass decided.
#[derive(Debug, Clone, PartialEq, Eq)]
pub struct Selection {
    /// Runs to start, in order.
    pub dispatch: Vec<DispatchCandidate>,
    /// Ready runs deferred for capacity.
    pub deferred: Vec<Deferred>,
    /// Nodes whose runs are parked.
    pub waiting: Vec<String>,
    /// Queued nodes whose prerequisites are not done.
    pub blocked: Vec<String>,
}

impl Selection {
    /// Whether nothing is to start.
    pub fn is_empty(&self) -> (r: bool)
        ensures
            r == (self.dispatch@.len() == 0),
    {
        self.dispatch.len() == 0
    }
}

/// The dependency releases one pass makes.
#[derive(Debug, Clone, PartialEq, Eq)]
pub struct ReleasePlan {
    /// Node transitions, in run order.
    pub transitions: Vec<NodeTransition>,
}

impl ReleasePlan {
    /// Whether nothing is released.
    pub fn is_empty(&self) -> (r: bool)
        ensures
            r == (self.transitions@.len() == 0),
    {
        self.transitions.len() == 0
    }
}

/// The join releases one pass makes.
#[derive(Debug, Clone, PartialEq, Eq)]
pub struct JoinPlan {
    /// Node transitions, in run order.
    pub transitions: Vec<NodeTransition>,
}

impl JoinPlan {
    /// Whether nothing is joined.
    pub fn is_empty(&self) -> (r: bool)
        ensures
            r == (self.transitions@.len() == 0),
    {
        self.transitions.len() == 0
    }
}

/// Whether `a` runs before `b`: higher priority first, then the smaller id.
pub open spec fn runs_before(a: WorkNodeView, b: WorkNodeView) -> bool {
    a.priority > b.priority || (a.priority == b.priority && seq_lt(a.id@, b.id@))
}

/// `x` inserted into `s` after every node it does not run before.
pub open spec fn insert_in_order(s: Seq<WorkNodeView>, x: WorkNodeView) -> Seq<WorkNodeView>
    decreases s.len(),
{
    if s.len() == 0 {
        seq![x]
    } else if runs_before(x, s[0]) {
        seq![x] + s
    } else {
        seq![s[0]] + insert_in_order(s.drop_first(), x)
    }
}

/// The nodes in run order: priority descending, then id ascending, equal nodes in their
/// original order.
pub open spec fn in_run_order(s: Seq<WorkNodeView>) -> Seq<WorkNodeView>
    decreases s.len(),
{
    if s.len() == 0 {
        s
    } else {
        insert_in_order(in_run_order(s.drop_last()), s.last())
    }
}

/// Inserting before the first node `x` runs before is the ordered insertion.
proof fn lemma_insert_at(s: Seq<WorkNodeView>, x: WorkNodeView, p: int)
    requires
        0 <= p <= s.len(),
        forall|k: int| 0 <= k < p ==> !runs_before(x, #[trigger] s[k]),
        p < s.len() ==> runs_before(x, s[p]),
    ensures
        insert_in_order(s, x) == s.insert(p, x),
    decreases s.len(),
{
    if s.len() == 0 {
        assert(s.insert(p, x) =~= seq![x]);
    } else if p == 0 {
        assert(s.insert(0, x) =~= seq![x] + s);
    } else {
        let t = s.drop_first();
        assert forall|k: int| 0 <= k < p - 1 implies !runs_before(x, #[trigger] t[k]) by {
            assert(t[k] == s[k + 1]);
        }
        if p - 1 < t.len() {
            assert(t[p - 1] == s[p]);
        }
        lemma_insert_at(t, x, p - 1);
        assert(s.insert(p, x) =~= seq![s[0]] + t.insert(p - 1, x));
    }
}

/// Whether `a` runs before `b`.
fn runs_before_exec(a: &WorkNodeView, b: &WorkNodeView) -> (r: bool)
    ensures
        r == runs_before(*a, *b),
{
    a.priority > b.priority || (a.priority == b.priority && str_lt(a.id.as_str(), b.id.as_str()))
}

/// The nodes of `nodes` in run order.
fn run_order<'a>(nodes: &'a Vec<WorkNodeView>) -> (r: Vec<&'a WorkNodeView>)
    ensures
        deref_all(r@) == in_run_order(nodes@),
{
    let mut out: Vec<&WorkNodeView> = Vec::new();
    let mut i: usize = 0;
    proof {
        assert(nodes@.take(0) =~= Seq::<WorkNodeView>::empty());
        assert(deref_all(out@) =~= in_run_order(nodes@.take(0)));
    }
    while i < nodes.len()
        invariant
            i <= nodes@.len(),
            out@.len() == i,
            deref_all(out@) == in_run_order(nodes@.take(i as int)),
        decreases nodes@.len() - i,
    {
        let x = &nodes[i];
        let mut p: usize = 0;
        while p < out.len() && !runs_before_exec(x, out[p])
            invariant
                p <= out@.len(),
                forall|k: int| 0 <= k < p ==> !runs_before(*x, #[trigger] deref_all(out@)[k]),
            decreases out@.len() - p,
        {
            proof {
                assert(deref_all(out@)[p as int] == *out@[p as int]);
            }
            p = p + 1;
        }
        proof {
            if p < out@.len() {
                assert(deref_all(out@)[p as int] == *out@[p as int]);
            }
            lemma_insert_at(deref_all(out@), *x, p as int);
            assert(nodes@.take(i + 1).drop_last() =~= nodes@.take(i as int));
            assert(nodes@.take(i + 1).last() == *x);
        }
        let ghost before = out@;
        out.insert(p, x);
        proof {
            assert(deref_all(out@) =~= deref_all(before).insert(p as int, *x));
        }
        i = i + 1;
    }
    proof {
        assert(nodes@.take(nodes@.len() as int) =~= nodes@);
    }
    out
}

/// A transition by view: node id, expected revision, new status, reason.
pub type TransitionView = (Seq<char>, u64, Seq<char>, Seq<char>);

/// The view of a transition.
pub open spec fn transition_view(t: NodeTransition) -> TransitionView {
    (t.node_id@, t.expected_revision, t.to@, t.reason@)
}

/// The views of a sequence of transitions.
pub open spec fn transition_views(ts: Seq<NodeTransition>) -> Seq<TransitionView> {
    ts.map_values(|t: NodeTransition| transition_view(t))
}

/// Whether the node with id `id` is done.
pub open spec fn node_done(nodes: Seq<WorkNodeView>, id: Seq<char>) -> bool {
    find_node(nodes, id) matches Some(n) && n.status@ == "done"@
}

/// Whether the node with id `id` failed or was cancelled.
pub open spec fn node_broken(nodes: Seq<WorkNodeView>, id: Seq<char>) -> bool {
    find_node(nodes, id) matches Some(n) && (n.status@ == "failed"@ || n.status@ == "cancelled"@)
}

/// Whether every id of `ids` is a done node.
pub open spec fn all_done(nodes: Seq<WorkNodeView>, ids: Seq<Seq<char>>) -> bool {
    forall|k: int| 0 <= k < ids.len() ==> node_done(nodes, #[trigger] ids[k])
}

/// Whether some id of `ids` is a failed or cancelled node.
pub open spec fn any_broken(nodes: Seq<WorkNodeView>, ids: Seq<Seq<char>>) -> bool {
    exists|k: int| 0 <= k < ids.len() && node_broken(nodes, #[trigger] ids[k])
}

/// The dependency release of one node: a draft without prerequisites becomes ready; a
/// draft or blocked node becomes ready once every prerequisite is done, and a draft node
/// with a failed or cancelled prerequisite is blocked.
pub open spec fn release_of(nodes: Seq<WorkNodeView>, edges: Seq<crate::runtime::orchestration::graph::DependencyEdge>, n: WorkNodeView) -> Option<TransitionView> {
    let st = n.status@;
    if node_terminal(st) || st == "ready"@ || (st != "draft"@ && st != "blocked"@) {
        None
    } else {
        let pre = prerequisite_ids(edges, n.id@);
        if pre.len() == 0 {
            if st == "draft"@ {
                Some((n.id@, n.revision, "ready"@, "no prerequisites"@))
            } else {
                None
            }
        } else if any_broken(nodes, pre) {
            if st != "blocked"@ {
                Some((n.id@, n.revision, "blocked"@, "a prerequisite failed or was cancelled"@))
            } else {
                None
            }
        } else if all_done(nodes, pre) {
            Some((n.id@, n.revision, "ready"@, "all prerequisites are done"@))
        } else {
            None
        }
    }
}

/// The join release of one node: a waiting node with children is blocked when a child
/// failed or was cancelled, and resumes once every child is done.
pub open spec fn join_of(nodes: Seq<WorkNodeView>, n: WorkNodeView) -> Option<TransitionView> {
    let children = child_ids(nodes, n.id@);
    if n.status@ != "waiting"@ || children.len() == 0 {
        None
    } else if any_broken(nodes, children) {
        Some((n.id@, n.revision, "blocked"@, "a child failed or was cancelled"@))
    } else if all_done(nodes, children) {
        Some((n.id@, n.revision, "in_progress"@, "every child joined"@))
    } else {
        None
    }
}

/// A transition of `node` to `to`, for `reason`.
fn transition(node: &WorkNodeView, to: &str, reason: &str) -> (r: NodeTransition)
    ensures
        transition_view(r) == (node.id@, node.revision, to@, reason@),
{
    NodeTransition {
        node_id: node.id.clone(),
        expected_revision: node.revision,
        to: owned(to),
        reason: owned(reason),
    }
}

/// Whether every id of `ids` is a done node, and whether some is failed or cancelled.
fn classify(snapshot: &GraphSnapshot, ids: &Vec<&str>) -> (r: (bool, bool))
    ensures
        r.0 == all_done(snapshot.nodes@, str_views(ids@)),
        r.1 == any_broken(snapshot.nodes@, str_views(ids@)),
{
    let mut done = true;
    let mut broken = false;
    let mut k: usize = 0;
    while k < ids.len()
        invariant
            k <= ids@.len(),
            done == forall|q: int| 0 <= q < k ==> node_done(snapshot.nodes@, #[trigger] str_views(ids@)[q]),
            broken == exists|q: int| 0 <= q < k && node_broken(snapshot.nodes@, #[trigger] str_views(ids@)[q]),
        decreases ids@.len() - k,
    {
        let id = ids[k];
        proof {
            assert(str_views(ids@)[k as int] == id@);
        }
        proof {
            reveal_strlit("done");
            reveal_strlit("failed");
            reveal_strlit("cancelled");
            assert("done"@.len() == 4 && "failed"@.len() == 6 && "cancelled"@.len() == 9);
        }
        match snapshot.node(id) {
            Some(n) => {
                if str_eq(n.status.as_str(), "done") {
                } else if str_eq(n.status.as_str(), "failed") || str_eq(n.status.as_str(), "cancelled") {
                    broken = true;
                    done = false;
                } else {
                    done = false;
                }
            },
            None => {
                done = false;
            },
        }
        proof {
            assert(broken == exists|q: int| 0 <= q < k + 1 && node_broken(snapshot.nodes@, #[trigger] str_views(ids@)[q]));
        }
        k = k + 1;
    }
    (done, broken)
}

/// The dependency releases over the snapshot, in run order.
pub fn release_plan(snapshot: &GraphSnapshot) -> (r: ReleasePlan)
    ensures
        transition_views(r.transitions@) == in_run_order(snapshot.nodes@).filter_map(
            |n: WorkNodeView| release_of(snapshot.nodes@, snapshot.edges@, n),
        ),
{
    let ghost f = |n: WorkNodeView| release_of(snapshot.nodes@, snapshot.edges@, n);
    let ordered = run_order(&snapshot.nodes);
    let ghost o = deref_all(ordered@);
    let mut transitions: Vec<NodeTransition> = Vec::new();
    let mut i: usize = 0;
    proof {
        assert(o.take(0).filter_map(f) =~= Seq::<TransitionView>::empty());
        assert(transition_views(transitions@) =~= o.take(0).filter_map(f));
    }
    while i < ordered.len()
        invariant
            i <= ordered@.len(),
            o == deref_all(ordered@),
            f == (|n: WorkNodeView| release_of(snapshot.nodes@, snapshot.edges@, n)),
            transition_views(transitions@) == o.take(i as int).filter_map(f),
        decreases ordered@.len() - i,
    {
        let node = ordered[i];
        proof {
            assert(o[i as int] == *node);
            assert(o.take(i + 1).drop_last() =~= o.take(i as int));
            assert(o.take(i + 1).last() == *node);
            reveal_strlit("draft");
            reveal_strlit("blocked");
            reveal_strlit("ready");
        }
        let ghost before = transitions@;
        let st = node.status.as_str();
        if !(node.is_terminal() || str_eq(st, "ready")) && (str_eq(st, "draft") || str_eq(st, "blocked")) {
            let prerequisites = snapshot.prerequisites(node.id.as_str());
            if prerequisites.len() == 0 {
                if str_eq(st, "draft") {
                    transitions.push(transition(node, "ready", "no prerequisites"));
                }
            } else {
                let (done, broken) = classify(snapshot, &prerequisites);
                if broken {
                    if !str_eq(st, "blocked") {
                        transitions.push(transition(node, "blocked", "a prerequisite failed or was cancelled"));
                    }
                } else if done {
                    transitions.push(transition(node, "ready", "all prerequisites are done"));
                }
            }
        }
        proof {
            if transitions@.len() > before.len() {
                assert(transition_views(transitions@) =~= transition_views(before).push(
                    transition_view(transitions@[before.len() as int]),
                ));
            } else {
                assert(transition_views(transitions@) =~= transition_views(before));
            }
        }
        i = i + 1;
    }
    proof {
        assert(o.take(o.len() as int) =~= o);
    }
    ReleasePlan { transitions }
}

/// The join releases over the snapshot, in run order.
pub fn join_plan(snapshot: &GraphSnapshot) -> (r: JoinPlan)
    ensures
        transition_views(r.transitions@) == in_run_order(snapshot.nodes@).filter_map(
            |n: WorkNodeView| join_of(snapshot.nodes@, n),
        ),
{
    let ghost f = |n: WorkNodeView| join_of(snapshot.nodes@, n);
    let ordered = run_order(&snapshot.nodes);
    let ghost o = deref_all(ordered@);
    let mut transitions: Vec<NodeTransition> = Vec::new();
    let mut i: usize = 0;
    proof {
        assert(o.take(0).filter_map(f) =~= Seq::<TransitionView>::empty());
        assert(transition_views(transitions@) =~= o.take(0).filter_map(f));
    }
    while i < ordered.len()
        invariant
            i <= ordered@.len(),
            o == deref_all(ordered@),
            f == (|n: WorkNodeView| join_of(snapshot.nodes@, n)),
            transition_views(transitions@) == o.take(i as int).filter_map(f),
        decreases ordered@.len() - i,
    {
        let node = ordered[i];
        proof {
            assert(o[i as int] == *node);
            assert(o.take(i + 1).drop_last() =~= o.take(i as int));
            assert(o.take(i + 1).last() == *node);
        }
        let ghost before = transitions@;
        if str_eq(node.status.as_str(), "waiting") {
            let children = snapshot.children(node.id.as_str());
            if children.len() > 0 {
                let (done, broken) = classify(snapshot, &children);
                if broken {
                    transitions.push(transition(node, "blocked", "a child failed or was cancelled"));
                } else if done {
                    transitions.push(transition(node, "in_progress", "every child joined"));
                }
            }
        }
        proof {
            if transitions@.len() > before.len() {
                assert(transition_views(transitions@) =~= transition_views(before).push(
                    transition_view(transitions@[before.len() as int]),
                ));
            } else {
                assert(transition_views(transitions@) =~= transition_views(before));
            }
        }
        i = i + 1;
    }
    proof {
        assert(o.take(o.len() as int) =~= o);
    }
    JoinPlan { transitions }
}


/// Whether a node has a queued, unparked run and is ready to start.
pub open spec fn queued_ready(n: WorkNodeView) -> bool {
    &&& !node_parked(n)
    &&& n.run matches Some(r) && r.status@ == "QUEUED"@
    &&& n.status@ == "ready"@
}

/// Whether every prerequisite of `n` is in the graph and done.
pub open spec fn prerequisites_done(nodes: Seq<WorkNodeView>, edges: Seq<DependencyEdge>, n: WorkNodeView) -> bool {
    first_unsatisfied(nodes, prerequisite_ids(edges, n.id@)) is None
}

/// The node, when it may be dispatched.
pub open spec fn eligible(nodes: Seq<WorkNodeView>, edges: Seq<DependencyEdge>, n: WorkNodeView) -> Option<WorkNodeView> {
    if queued_ready(n) && prerequisites_done(nodes, edges, n) {
        Some(n)
    } else {
        None
    }
}

/// The node's id, when its run is parked.
pub open spec fn waiting_id(n: WorkNodeView) -> Option<Seq<char>> {
    if node_parked(n) {
        Some(n.id@)
    } else {
        None
    }
}

/// The node's id, when it is queued and ready but a prerequisite is not done.
pub open spec fn blocked_id(nodes: Seq<WorkNodeView>, edges: Seq<DependencyEdge>, n: WorkNodeView) -> Option<Seq<char>> {
    if queued_ready(n) && !prerequisites_done(nodes, edges, n) {
        Some(n.id@)
    } else {
        None
    }
}

/// The dispatchable nodes, in run order.
pub open spec fn eligible_nodes(nodes: Seq<WorkNodeView>, edges: Seq<DependencyEdge>) -> Seq<WorkNodeView> {
    in_run_order(nodes).filter_map(|n: WorkNodeView| eligible(nodes, edges, n))
}

/// How many of `eligible` nodes fit in `headroom` slots.
pub open spec fn admitted(eligible: nat, headroom: nat) -> nat {
    if eligible <= headroom {
        eligible
    } else {
        headroom
    }
}

/// A dispatch candidate by view: node id, priority, run.
pub type CandidateView = (Seq<char>, i16, RunRef);

/// The view of a candidate.
pub open spec fn candidate_view(c: DispatchCandidate) -> CandidateView {
    (c.node_id@, c.priority, c.run)
}

/// The candidate a dispatchable node makes.
pub open spec fn node_candidate(n: WorkNodeView) -> CandidateView {
    (n.id@, n.priority, n.run->0)
}

/// The view of a deferral.
pub open spec fn deferred_view(d: Deferred) -> (Seq<char>, DeferralReason) {
    (d.node_id@, d.reason)
}

/// The deferral of a node for want of capacity.
pub open spec fn capacity_deferral(n: WorkNodeView) -> (Seq<char>, DeferralReason) {
    (n.id@, DeferralReason::Capacity)
}

/// The nodes dispatched within `headroom` slots: the first admitted dispatchable nodes.
pub open spec fn dispatched(nodes: Seq<WorkNodeView>, edges: Seq<DependencyEdge>, headroom: nat) -> Seq<CandidateView> {
    let e = eligible_nodes(nodes, edges);
    e.take(admitted(e.len(), headroom) as int).map_values(|n: WorkNodeView| node_candidate(n))
}

/// The dispatchable nodes beyond `headroom`, deferred for capacity.
pub open spec fn deferred_for_capacity(nodes: Seq<WorkNodeView>, edges: Seq<DependencyEdge>, headroom: nat) -> Seq<(Seq<char>, DeferralReason)> {
    let e = eligible_nodes(nodes, edges);
    e.skip(admitted(e.len(), headroom) as int).map_values(|n: WorkNodeView| capacity_deferral(n))
}

/// Whether `sel` is the selection over `nodes` within `headroom` slots: the first
/// dispatchable nodes that fit, the rest deferred for capacity, the parked runs waiting and
/// the queued nodes with a prerequisite not done blocked, each in run order.
pub open spec fn selection_for(nodes: Seq<WorkNodeView>, edges: Seq<DependencyEdge>, headroom: nat, sel: Selection) -> bool {
    &&& sel.dispatch@.map_values(|c: DispatchCandidate| candidate_view(c)) == dispatched(nodes, edges, headroom)
    &&& sel.deferred@.map_values(|d: Deferred| deferred_view(d)) == deferred_for_capacity(nodes, edges, headroom)
    &&& string_views(sel.waiting@) == in_run_order(nodes).filter_map(|n: WorkNodeView| waiting_id(n))
    &&& string_views(sel.blocked@) == in_run_order(nodes).filter_map(|n: WorkNodeView| blocked_id(nodes, edges, n))
}

/// A run the selection is about to start.
fn candidate(node: &WorkNodeView, run: &RunRef) -> (c: DispatchCandidate)
    ensures
        c.node_id@ == node.id@,
        c.priority == node.priority,
        c.run == *run,
{
    DispatchCandidate { node_id: node.id.clone(), priority: node.priority, run: copy_run(run) }
}

/// Select the runs that may start now within `headroom` free slots.
///
/// A node is dispatched when it is `ready`, its run is `QUEUED` and every prerequisite is
/// done; the first `headroom` of those in run order start and the rest are deferred for
/// capacity. Parked runs are reported as waiting, queued nodes with a prerequisite not done
/// as blocked.
pub fn select(snapshot: &GraphSnapshot, headroom: usize) -> (r: Selection)
    ensures
        selection_for(snapshot.nodes@, snapshot.edges@, headroom as nat, r),
        r.dispatch@.len() <= headroom,
        forall|k: int| 0 <= k < r.dispatch@.len() ==> first_unsatisfied(
            snapshot.nodes@,
            prerequisite_ids(snapshot.edges@, #[trigger] r.dispatch@[k].node_id@),
        ) is None,
{
    let ghost nodes = snapshot.nodes@;
    let ghost edges = snapshot.edges@;
    let ghost fe = |n: WorkNodeView| eligible(nodes, edges, n);
    let ghost fw = |n: WorkNodeView| waiting_id(n);
    let ghost fb = |n: WorkNodeView| blocked_id(nodes, edges, n);
    let ordered = run_order(&snapshot.nodes);
    let ghost o = deref_all(ordered@);
    let mut dispatch: Vec<DispatchCandidate> = Vec::new();
    let mut deferred: Vec<Deferred> = Vec::new();
    let mut waiting: Vec<String> = Vec::new();
    let mut blocked: Vec<String> = Vec::new();
    let mut remaining = headroom;
    let mut i: usize = 0;
    proof {
        assert(o.take(0) =~= Seq::<WorkNodeView>::empty());
        assert(o.take(0).filter_map(fe) =~= Seq::<WorkNodeView>::empty());
        assert(o.take(0).filter_map(fw) =~= Seq::<Seq<char>>::empty());
        assert(o.take(0).filter_map(fb) =~= Seq::<Seq<char>>::empty());
        assert(string_views(waiting@) =~= Seq::<Seq<char>>::empty());
        assert(string_views(blocked@) =~= Seq::<Seq<char>>::empty());
    }
    while i < ordered.len()
        invariant
            i <= ordered@.len(),
            o == deref_all(ordered@),
            o == in_run_order(nodes),
            nodes == snapshot.nodes@,
            edges == snapshot.edges@,
            fe == (|n: WorkNodeView| eligible(nodes, edges, n)),
            fw == (|n: WorkNodeView| waiting_id(n)),
            fb == (|n: WorkNodeView| blocked_id(nodes, edges, n)),
            dispatch@.len() == admitted(o.take(i as int).filter_map(fe).len(), headroom as nat),
            remaining == headroom - dispatch@.len(),
            dispatch@.map_values(|c: DispatchCandidate| candidate_view(c)) == o.take(i as int).filter_map(fe).take(
                dispatch@.len() as int,
            ).map_values(|n: WorkNodeView| node_candidate(n)),
            deferred@.map_values(|d: Deferred| deferred_view(d)) == o.take(i as int).filter_map(fe).skip(
                dispatch@.len() as int,
            ).map_values(|n: WorkNodeView| capacity_deferral(n)),
            string_views(waiting@) == o.take(i as int).filter_map(fw),
            string_views(blocked@) == o.take(i as int).filter_map(fb),
            forall|k: int| 0 <= k < dispatch@.len() ==> first_unsatisfied(
                nodes,
                prerequisite_ids(edges, #[trigger] dispatch@[k].node_id@),
            ) is None,
        decreases ordered@.len() - i,
    {
        let node = ordered[i];
        let ghost e0 = o.take(i as int).filter_map(fe);
        let ghost d0 = dispatch@;
        let ghost f0 = deferred@;
        let ghost w0 = waiting@;
        let ghost b0 = blocked@;
        proof {
            assert(o[i as int] == *node);
            assert(o.take(i + 1).drop_last() =~= o.take(i as int));
            assert(o.take(i + 1).last() == *node);
            reveal_strlit("ready");
            reveal_strlit("QUEUED");
        }
        match &node.run {
            Some(run) => {
                if node.is_parked() {
                    waiting.push(node.id.clone());
                } else if str_eq(run.status.as_str(), "QUEUED") && str_eq(node.status.as_str(), "ready") {
                    if !snapshot.prerequisites_satisfied(node.id.as_str()) {
                        blocked.push(node.id.clone());
                    } else if remaining == 0 {
                        deferred.push(Deferred { node_id: node.id.clone(), reason: DeferralReason::Capacity });
                    } else {
                        remaining = remaining - 1;
                        dispatch.push(candidate(node, run));
                    }
                }
            },
            None => {},
        }
        proof {
            let e1 = o.take(i + 1).filter_map(fe);
            if waiting@.len() > w0.len() {
                assert(string_views(waiting@) =~= string_views(w0).push(node.id@));
            } else {
                assert(waiting@ == w0);
            }
            if blocked@.len() > b0.len() {
                assert(string_views(blocked@) =~= string_views(b0).push(node.id@));
            } else {
                assert(blocked@ == b0);
            }
            if fe(*node) is Some {
                assert(e1 =~= e0.push(*node));
                if dispatch@.len() > d0.len() {
                    assert(e1.take(dispatch@.len() as int) =~= e0.take(d0.len() as int).push(*node));
                    assert(dispatch@.map_values(|c: DispatchCandidate| candidate_view(c)) =~= d0.map_values(
                        |c: DispatchCandidate| candidate_view(c),
                    ).push(node_candidate(*node)));
                    assert(e1.skip(dispatch@.len() as int) =~= e0.skip(d0.len() as int));
                } else {
                    assert(e1.take(d0.len() as int) =~= e0.take(d0.len() as int));
                    assert(e1.skip(d0.len() as int) =~= e0.skip(d0.len() as int).push(*node));
                    assert(deferred@.map_values(|d: Deferred| deferred_view(d)) =~= f0.map_values(
                        |d: Deferred| deferred_view(d),
                    ).push(capacity_deferral(*node)));
                }
            } else {
                assert(e1 =~= e0);
            }
        }
        i = i + 1;
    }
    proof {
        assert(o.take(o.len() as int) =~= o);
    }
    Selection { dispatch, deferred, waiting, blocked }
}


/// The last transition of `ts` for node `id`, if any: a later transition for the same
/// node overrides an earlier one.
pub open spec fn last_transition(ts: Seq<NodeTransition>, id: Seq<char>) -> Option<NodeTransition>
    decreases ts.len(),
{
    if ts.len() == 0 {
        None
    } else if ts.last().node_id@ == id {
        Some(ts.last())
    } else {
        last_transition(ts.drop_last(), id)
    }
}

/// A node after the transitions `ts`: the status its last transition names, one revision
/// on; a node without a transition is unchanged.
pub open spec fn projected_node(ts: Seq<NodeTransition>, n: WorkNodeView) -> WorkNodeView {
    match last_transition(ts, n.id@) {
        Some(t) => WorkNodeView {
            id: n.id,
            kind: n.kind,
            status: t.to,
            parent_id: n.parent_id,
            priority: n.priority,
            revision: (n.revision + 1) as u64,
            run: n.run,
        },
        None => n,
    }
}

/// Whether every node a transition of `ts` changes has a revision that can still grow.
pub open spec fn revisions_can_advance(nodes: Seq<WorkNodeView>, ts: Seq<NodeTransition>) -> bool {
    forall|i: int| 0 <= i < nodes.len() && (#[trigger] last_transition(ts, nodes[i].id@)) is Some ==> nodes[i].revision < u64::MAX
}

/// The last transition of `ts` for `id`, by search.
fn find_last_transition<'a>(ts: &'a [NodeTransition], id: &str) -> (r: Option<&'a NodeTransition>)
    ensures
        match r {
            Some(t) => last_transition(ts@, id@) == Some(*t),
            None => last_transition(ts@, id@) is None,
        },
{
    let mut found: Option<&NodeTransition> = None;
    let mut j: usize = 0;
    proof {
        assert(ts@.take(0) =~= Seq::<NodeTransition>::empty());
    }
    while j < ts.len()
        invariant
            j <= ts@.len(),
            match found {
                Some(t) => last_transition(ts@.take(j as int), id@) == Some(*t),
                None => last_transition(ts@.take(j as int), id@) is None,
            },
        decreases ts@.len() - j,
    {
        proof {
            assert(ts@.take(j + 1).drop_last() =~= ts@.take(j as int));
            assert(ts@.take(j + 1).last() == ts@[j as int]);
        }
        if str_eq(ts[j].node_id.as_str(), id) {
            found = Some(&ts[j]);
        }
        j = j + 1;
    }
    proof {
        assert(ts@.take(ts@.len() as int) =~= ts@);
    }
    found
}

/// The snapshot as it will be once `transitions` are applied: the graph one tick selects
/// against after its own release, without a second read.
pub fn project(snapshot: &GraphSnapshot, transitions: &[NodeTransition]) -> (r: GraphSnapshot)
    requires
        revisions_can_advance(snapshot.nodes@, transitions@),
    ensures
        r.workspace_id == snapshot.workspace_id,
        r.revision == snapshot.revision,
        r.edges@ == snapshot.edges@,
        r.nodes@ == snapshot.nodes@.map_values(|n: WorkNodeView| projected_node(transitions@, n)),
{
    let ghost g = |n: WorkNodeView| projected_node(transitions@, n);
    let mut nodes: Vec<WorkNodeView> = Vec::new();
    let mut i: usize = 0;
    while i < snapshot.nodes.len()
        invariant
            i <= snapshot.nodes@.len(),
            revisions_can_advance(snapshot.nodes@, transitions@),
            g == (|n: WorkNodeView| projected_node(transitions@, n)),
            nodes@ == snapshot.nodes@.take(i as int).map_values(g),
        decreases snapshot.nodes@.len() - i,
    {
        let n = &snapshot.nodes[i];
        let mut copy = copy_node(n);
        match find_last_transition(transitions, n.id.as_str()) {
            Some(t) => {
                proof {
                    assert(last_transition(transitions@, snapshot.nodes@[i as int].id@) is Some);
                }
                copy.status = copy_string(&t.to);
                copy.revision = n.revision + 1;
            },
            None => {},
        }
        nodes.push(copy);
        proof {
            assert(snapshot.nodes@.take(i + 1).map_values(g) =~= snapshot.nodes@.take(i as int).map_values(g).push(
                g(*n),
            ));
        }
        i = i + 1;
    }
    let mut edges: Vec<DependencyEdge> = Vec::new();
    let mut k: usize = 0;
    while k < snapshot.edges.len()
        invariant
            k <= snapshot.edges@.len(),
            edges@ == snapshot.edges@.take(k as int),
        decreases snapshot.edges@.len() - k,
    {
        edges.push(copy_edge(&snapshot.edges[k]));
        proof {
            assert(snapshot.edges@.take(k + 1) =~= snapshot.edges@.take(k as int).push(snapshot.edges@[k as int]));
        }
        k = k + 1;
    }
    proof {
        assert(snapshot.nodes@.take(snapshot.nodes@.len() as int) =~= snapshot.nodes@);
        assert(snapshot.edges@.take(snapshot.edges@.len() as int) =~= snapshot.edges@);
    }
    GraphSnapshot {
        workspace_id: copy_string(&snapshot.workspace_id),
        revision: snapshot.revision,
        nodes,
        edges,
    }
}


/// The ids of `nodes`, in node order.
pub open spec fn node_id_views(nodes: Seq<WorkNodeView>) -> Seq<Seq<char>> {
    nodes.map_values(|n: WorkNodeView| n.id@)
}

/// The ids the snapshot knows, each once, in ascending order.
pub fn node_ids(snapshot: &GraphSnapshot) -> (r: Vec<&str>)
    ensures
        strictly_ascending(str_views(r@)),
        forall|x: Seq<char>| has_id(str_views(r@), x) <==> has_id(node_id_views(snapshot.nodes@), x),
{
    let ghost all = node_id_views(snapshot.nodes@);
    let mut out: Vec<&str> = Vec::new();
    let mut i: usize = 0;
    while i < snapshot.nodes.len()
        invariant
            i <= snapshot.nodes@.len(),
            all == node_id_views(snapshot.nodes@),
            strictly_ascending(str_views(out@)),
            forall|x: Seq<char>| has_id(str_views(out@), x) <==> has_id(all.take(i as int), x),
        decreases snapshot.nodes@.len() - i,
    {
        let ghost t0 = all.take(i as int);
        let ghost t1 = all.take(i + 1);
        insert_sorted_unique(&mut out, snapshot.nodes[i].id.as_str());
        proof {
            assert(t1 =~= t0.push(all[i as int]));
            assert forall|x: Seq<char>| has_id(t1, x) <==> (has_id(t0, x) || x == all[i as int]) by {
                if has_id(t1, x) {
                    let k = choose|k: int| 0 <= k < t1.len() && t1[k] == x;
                    if k < i {
                        assert(t0[k] == x);
                    }
                }
                if has_id(t0, x) {
                    let k = choose|k: int| 0 <= k < t0.len() && t0[k] == x;
                    assert(t1[k] == x);
                }
                if x == all[i as int] {
                    assert(t1[i as int] == x);
                }
            }
        }
        i = i + 1;
    }
    proof {
        assert(all.take(all.len() as int) =~= all);
    }
    out
}

/// Whether `id` names a node of the graph.
pub open spec fn is_node_id(nodes: Seq<WorkNodeView>, id: Seq<char>) -> bool {
    find_node(nodes, id) is Some
}

/// Whether `e` says that node `from` depends on a node of the graph.
pub open spec fn dependency_from(nodes: Seq<WorkNodeView>, e: DependencyEdge, from: Seq<char>) -> bool {
    &&& is_dependency(e)
    &&& e.from_node_id@ == from
    &&& is_node_id(nodes, e.to_node_id@)
}

/// Whether `rank` places every prerequisite among the graph's nodes strictly below the
/// node depending on it.
pub open spec fn ranks_dependencies(nodes: Seq<WorkNodeView>, edges: Seq<DependencyEdge>, rank: spec_fn(Seq<char>) -> int) -> bool {
    forall|k: int|
        0 <= k < edges.len() && is_node_id(nodes, (#[trigger] edges[k]).from_node_id@) && dependency_from(
            nodes,
            edges[k],
            edges[k].from_node_id@,
        ) ==> rank(edges[k].from_node_id@) > rank(edges[k].to_node_id@)
}

/// Whether the `depends_on` edges among the graph's nodes have no cycle: some ranking
/// puts every prerequisite below its dependent.
pub open spec fn acyclic(nodes: Seq<WorkNodeView>, edges: Seq<DependencyEdge>) -> bool {
    exists|rank: spec_fn(Seq<char>) -> int| ranks_dependencies(nodes, edges, rank)
}

/// Whether every prerequisite of `id` among the graph's nodes is among `placed`.
pub open spec fn prerequisites_placed(nodes: Seq<WorkNodeView>, edges: Seq<DependencyEdge>, id: Seq<char>, placed: Seq<Seq<char>>) -> bool {
    forall|k: int| 0 <= k < edges.len() && dependency_from(nodes, #[trigger] edges[k], id) ==> has_id(placed, edges[k].to_node_id@)
}

/// Whether `id` occurs among the first `q` entries of `s`.
pub open spec fn occurs_before(s: Seq<Seq<char>>, id: Seq<char>, q: int) -> bool {
    exists|p: int| 0 <= p < q && s[p] == id
}

/// Whether every entry of `order` has its prerequisites earlier in `order`.
pub open spec fn topologically_ordered(nodes: Seq<WorkNodeView>, edges: Seq<DependencyEdge>, order: Seq<Seq<char>>) -> bool {
    forall|q: int, k: int|
        0 <= q < order.len() && 0 <= k < edges.len() && dependency_from(nodes, #[trigger] edges[k], #[trigger] order[q])
            ==> occurs_before(order, edges[k].to_node_id@, q)
}

/// The index of the first occurrence of `x` in `s`.
pub open spec fn first_index(s: Seq<Seq<char>>, x: Seq<char>) -> int
    decreases s.len(),
{
    if s.len() == 0 || s[0] == x {
        0
    } else {
        1 + first_index(s.drop_first(), x)
    }
}

pub(crate) proof fn lemma_first_index(s: Seq<Seq<char>>, x: Seq<char>, p: int)
    requires
        0 <= p < s.len(),
        s[p] == x,
    ensures
        0 <= first_index(s, x) <= p,
        s[first_index(s, x)] == x,
    decreases s.len(),
{
    if s[0] != x {
        lemma_first_index(s.drop_first(), x, p - 1);
    }
}

/// An index of `open` entries whose value is least.
pub(crate) proof fn lemma_least(vals: Seq<int>, open: Seq<bool>, n: int) -> (m: int)
    requires
        0 < n <= vals.len(),
        vals.len() == open.len(),
        exists|j: int| 0 <= j < n && open[j],
    ensures
        0 <= m < n,
        open[m],
        forall|j: int| 0 <= j < n && open[j] ==> vals[m] <= vals[j],
    decreases n,
{
    if n == 1 {
        0
    } else if exists|j: int| 0 <= j < n - 1 && open[j] {
        let m0 = lemma_least(vals, open, n - 1);
        if open[n - 1] && vals[n - 1] < vals[m0] {
            n - 1
        } else {
            m0
        }
    } else {
        n - 1
    }
}

/// An order that places every prerequisite first gives a ranking.
proof fn lemma_order_ranks(nodes: Seq<WorkNodeView>, edges: Seq<DependencyEdge>, order: Seq<Seq<char>>)
    requires
        topologically_ordered(nodes, edges, order),
        forall|i: int| 0 <= i < nodes.len() ==> has_id(order, #[trigger] nodes[i].id@),
    ensures
        acyclic(nodes, edges),
{
    let rank = |x: Seq<char>| first_index(order, x);
    assert forall|k: int|
        0 <= k < edges.len() && is_node_id(nodes, (#[trigger] edges[k]).from_node_id@) && dependency_from(
            nodes,
            edges[k],
            edges[k].from_node_id@,
        ) implies rank(edges[k].from_node_id@) > rank(edges[k].to_node_id@) by {
        let from = edges[k].from_node_id@;
        let i = choose|i: int| first_node_at(nodes, from, i);
        assert(nodes[i].id@ == from);
        let p0 = choose|p: int| 0 <= p < order.len() && order[p] == nodes[i].id@;
        lemma_first_index(order, from, p0);
        let f = first_index(order, from);
        assert(dependency_from(nodes, edges[k], order[f]));
        assert(occurs_before(order, edges[k].to_node_id@, f));
        let p = choose|p: int| 0 <= p < f && order[p] == edges[k].to_node_id@;
        lemma_first_index(order, edges[k].to_node_id@, p);
    }
    assert(ranks_dependencies(nodes, edges, rank));
}

/// When every node left has a prerequisite left, no ranking exists.
proof fn lemma_stuck_has_cycle(nodes: Seq<WorkNodeView>, edges: Seq<DependencyEdge>, removed: Seq<bool>, placed: Seq<Seq<char>>, i0: int)
    requires
        removed.len() == nodes.len(),
        0 <= i0 < nodes.len(),
        !removed[i0],
        forall|i: int| 0 <= i < nodes.len() && removed[i] ==> has_id(placed, #[trigger] nodes[i].id@),
        forall|i: int| 0 <= i < nodes.len() && !removed[i] ==> !prerequisites_placed(nodes, edges, #[trigger] nodes[i].id@, placed),
    ensures
        !acyclic(nodes, edges),
{
    if acyclic(nodes, edges) {
        let rank = choose|rank: spec_fn(Seq<char>) -> int| ranks_dependencies(nodes, edges, rank);
        let vals = Seq::new(nodes.len(), |i: int| rank(nodes[i].id@));
        let open = Seq::new(nodes.len(), |i: int| !removed[i]);
        assert(open[i0]);
        let m = lemma_least(vals, open, nodes.len() as int);
        assert(!prerequisites_placed(nodes, edges, nodes[m].id@, placed));
        let k = choose|k: int| 0 <= k < edges.len() && dependency_from(nodes, #[trigger] edges[k], nodes[m].id@) && !has_id(placed, edges[k].to_node_id@);
        let to = edges[k].to_node_id@;
        let j = choose|j: int| first_node_at(nodes, to, j);
        assert(nodes[j].id@ == to);
        assert(!removed[j]);
        assert(open[j]);
        assert(vals[m] <= vals[j]);
        let c = lemma_first_at(nodes, nodes[m].id@, m);
        assert(is_node_id(nodes, edges[k].from_node_id@));
        assert(rank(edges[k].from_node_id@) > rank(edges[k].to_node_id@));
    }
}

/// A node whose id occurs makes a first node with that id.
proof fn lemma_first_at(nodes: Seq<WorkNodeView>, id: Seq<char>, i: int) -> (c: int)
    requires
        0 <= i < nodes.len(),
        nodes[i].id@ == id,
    ensures
        first_node_at(nodes, id, c),
    decreases i,
{
    if exists|j: int| 0 <= j < i && nodes[j].id@ == id {
        let j = choose|j: int| 0 <= j < i && nodes[j].id@ == id;
        lemma_first_at(nodes, id, j)
    } else {
        i
    }
}

/// Whether every prerequisite of `id` among the graph's nodes is in `placed`.
fn placed_all(snapshot: &GraphSnapshot, id: &str, placed: &Vec<&str>) -> (r: bool)
    ensures
        r == prerequisites_placed(snapshot.nodes@, snapshot.edges@, id@, str_views(placed@)),
{
    let mut k: usize = 0;
    while k < snapshot.edges.len()
        invariant
            k <= snapshot.edges@.len(),
            forall|q: int| 0 <= q < k && dependency_from(snapshot.nodes@, #[trigger] snapshot.edges@[q], id@) ==> has_id(
                str_views(placed@),
                snapshot.edges@[q].to_node_id@,
            ),
        decreases snapshot.edges@.len() - k,
    {
        let e = &snapshot.edges[k];
        proof {
            reveal_strlit("depends_on");
        }
        if str_eq(e.kind.as_str(), "depends_on") && str_eq(e.from_node_id.as_str(), id) && snapshot.node(
            e.to_node_id.as_str(),
        ).is_some() {
            if !contains_str(placed, e.to_node_id.as_str()) {
                return false;
            }
        }
        k = k + 1;
    }
    true
}

/// Whether `p` is a chain of dependency edges among the graph's nodes, each starting
/// where the one before ends.
pub open spec fn dependency_chain(nodes: Seq<WorkNodeView>, edges: Seq<DependencyEdge>, p: Seq<int>) -> bool {
    &&& forall|m: int| 0 <= m < p.len() ==> 0 <= #[trigger] p[m] < edges.len() && dependency_from(
        nodes,
        edges[p[m]],
        edges[p[m]].from_node_id@,
    )
    &&& forall|m: int| 0 <= m < p.len() - 1 ==> edges[#[trigger] p[m + 1]].from_node_id@ == edges[p[m]].to_node_id@
}

/// Whether node `id` lies on a cycle of dependencies: a chain of them leads from it back to it.
pub open spec fn on_dependency_cycle(nodes: Seq<WorkNodeView>, edges: Seq<DependencyEdge>, id: Seq<char>) -> bool {
    exists|p: Seq<int>|
        #[trigger] dependency_chain(nodes, edges, p) && p.len() >= 1 && edges[p[0]].from_node_id@ == id
            && edges[p.last()].to_node_id@ == id
}

/// A dependency of `id` on a graph node not in `placed`; one exists because not every
/// prerequisite of `id` is placed.
fn blocking_dependency(snapshot: &GraphSnapshot, id: &str, placed: &Vec<&str>) -> (k: usize)
    requires
        !prerequisites_placed(snapshot.nodes@, snapshot.edges@, id@, str_views(placed@)),
    ensures
        k < snapshot.edges@.len(),
        dependency_from(snapshot.nodes@, snapshot.edges@[k as int], id@),
        !has_id(str_views(placed@), snapshot.edges@[k as int].to_node_id@),
{
    let mut k: usize = 0;
    while k < snapshot.edges.len()
        invariant
            k <= snapshot.edges@.len(),
            forall|q: int| 0 <= q < k && dependency_from(snapshot.nodes@, #[trigger] snapshot.edges@[q], id@) ==> has_id(
                str_views(placed@),
                snapshot.edges@[q].to_node_id@,
            ),
        decreases snapshot.edges@.len() - k,
    {
        let e = &snapshot.edges[k];
        proof {
            reveal_strlit("depends_on");
        }
        if str_eq(e.kind.as_str(), "depends_on") && str_eq(e.from_node_id.as_str(), id) && snapshot.node(
            e.to_node_id.as_str(),
        ).is_some() && !contains_str(placed, e.to_node_id.as_str()) {
            return k;
        }
        k = k + 1;
    }
    0
}

/// The dependency that closes a cycle, found by walking unplaced prerequisites from the
/// stuck node `start` until the walk returns to a node it has left.
fn closing_dependency(snapshot: &GraphSnapshot, placed: &Vec<&str>, start: usize, Ghost(removed): Ghost<Seq<bool>>) -> (r: usize)
    requires
        removed.len() == snapshot.nodes@.len(),
        start < snapshot.nodes@.len(),
        !removed[start as int],
        forall|i: int| 0 <= i < snapshot.nodes@.len() && removed[i] ==> has_id(str_views(placed@), #[trigger] snapshot.nodes@[i].id@),
        forall|i: int| 0 <= i < snapshot.nodes@.len() && !removed[i] ==> !prerequisites_placed(
            snapshot.nodes@,
            snapshot.edges@,
            #[trigger] snapshot.nodes@[i].id@,
            str_views(placed@),
        ),
    ensures
        r < snapshot.edges@.len(),
        on_dependency_cycle(snapshot.nodes@, snapshot.edges@, snapshot.edges@[r as int].to_node_id@),
        is_node_id(snapshot.nodes@, snapshot.edges@[r as int].to_node_id@),
{
    let ghost nodes = snapshot.nodes@;
    let ghost edges = snapshot.edges@;
    let ghost pv = str_views(placed@);
    let m = snapshot.edges.len();
    let mut visited: Vec<bool> = Vec::new();
    while visited.len() < m
        invariant
            visited@.len() <= m,
            m == snapshot.edges@.len(),
            forall|k: int| 0 <= k < visited@.len() ==> !visited@[k],
        decreases m - visited@.len(),
    {
        visited.push(false);
    }
    let first = blocking_dependency(snapshot, snapshot.nodes[start].id.as_str(), placed);
    proof {
        lemma_mark(visited@, first as int);
    }
    visited.set(first, true);
    let mut walk: Vec<&str> = Vec::new();
    walk.push(snapshot.nodes[start].id.as_str());
    proof {
        assert(str_views(walk@)[0] == edges[first as int].from_node_id@);
        assert forall|k: int| 0 <= k < m && #[trigger] visited@[k] implies has_id(str_views(walk@), edges[k].from_node_id@) by {
            assert(k == first as int);
        }
    }
    let ghost mut chain: Seq<int> = seq![first as int];
    let mut current = first;
    loop
        invariant
            m == edges.len(),
            nodes == snapshot.nodes@,
            edges == snapshot.edges@,
            pv == str_views(placed@),
            removed.len() == nodes.len(),
            forall|i: int| 0 <= i < nodes.len() && removed[i] ==> has_id(pv, #[trigger] nodes[i].id@),
            forall|i: int| 0 <= i < nodes.len() && !removed[i] ==> !prerequisites_placed(nodes, edges, #[trigger] nodes[i].id@, pv),
            visited@.len() == m,
            current < m,
            chain.len() >= 1,
            chain.len() == walk@.len(),
            chain.last() == current as int,
            dependency_chain(nodes, edges, chain),
            forall|q: int| 0 <= q < chain.len() ==> edges[#[trigger] chain[q]].from_node_id@ == str_views(walk@)[q],
            forall|k: int| 0 <= k < m && #[trigger] visited@[k] ==> has_id(str_views(walk@), edges[k].from_node_id@),
            !has_id(pv, edges[current as int].to_node_id@),
        decreases unmarked(visited@),
    {
        let target = snapshot.edges[current].to_node_id.as_str();
        if contains_str(&walk, target) {
            proof {
                let wv = str_views(walk@);
                let n = chain.len() as int;
                let j = choose|j: int| 0 <= j < wv.len() && wv[j] == target@;
                let p = chain.subrange(j, n);
                assert forall|q: int| 0 <= q < p.len() implies 0 <= #[trigger] p[q] < edges.len() && dependency_from(
                    nodes,
                    edges[p[q]],
                    edges[p[q]].from_node_id@,
                ) by {
                    assert(p[q] == chain[j + q]);
                }
                assert forall|q: int| 0 <= q < p.len() - 1 implies edges[#[trigger] p[q + 1]].from_node_id@ == edges[p[q]].to_node_id@ by {
                    assert(p[q + 1] == chain[(j + q) + 1]);
                    assert(p[q] == chain[j + q]);
                }
                assert(dependency_chain(nodes, edges, p));
                assert(p[0] == chain[j]);
                assert(edges[chain[j]].from_node_id@ == wv[j]);
                assert(p.last() == chain[n - 1]);
                assert(on_dependency_cycle(nodes, edges, target@));
            }
            return current;
        }
        proof {
            let to = edges[current as int].to_node_id@;
            assert(dependency_from(nodes, edges[chain.last()], edges[chain.last()].from_node_id@));
            let j = choose|j: int| first_node_at(nodes, to, j);
            assert(nodes[j].id@ == to);
            if removed[j] {
                assert(has_id(pv, nodes[j].id@));
            }
            assert(!prerequisites_placed(nodes, edges, nodes[j].id@, pv));
        }
        let next = blocking_dependency(snapshot, target, placed);
        proof {
            if visited@[next as int] {
                assert(has_id(str_views(walk@), edges[next as int].from_node_id@));
            }
            lemma_mark(visited@, next as int);
        }
        let ghost before = walk@;
        visited.set(next, true);
        walk.push(target);
        proof {
            let old_chain = chain;
            chain = chain.push(next as int);
            assert(str_views(walk@) =~= str_views(before).push(target@));
            assert forall|q: int| 0 <= q < chain.len() implies 0 <= #[trigger] chain[q] < edges.len() && dependency_from(
                nodes,
                edges[chain[q]],
                edges[chain[q]].from_node_id@,
            ) by {
                if q < old_chain.len() {
                    assert(chain[q] == old_chain[q]);
                }
            }
            assert forall|q: int| 0 <= q < chain.len() - 1 implies edges[#[trigger] chain[q + 1]].from_node_id@ == edges[chain[q]].to_node_id@ by {
                if q + 1 < old_chain.len() {
                    assert(chain[q + 1] == old_chain[q + 1]);
                    assert(chain[q] == old_chain[q]);
                } else {
                    assert(chain[q] == old_chain.last());
                }
            }
            assert forall|q: int| 0 <= q < chain.len() implies edges[#[trigger] chain[q]].from_node_id@ == str_views(walk@)[q] by {
                if q < old_chain.len() {
                    assert(chain[q] == old_chain[q]);
                }
            }
            assert forall|k: int| 0 <= k < m && #[trigger] visited@[k] implies has_id(str_views(walk@), edges[k].from_node_id@) by {
                if k == next as int {
                    assert(str_views(walk@)[before.len() as int] == target@);
                } else {
                    let q = choose|q: int| 0 <= q < before.len() && str_views(before)[q] == edges[k].from_node_id@;
                    assert(str_views(walk@)[q] == str_views(before)[q]);
                }
            }
        }
        current = next;
    }
}

/// Check that the `depends_on` edges among the graph's nodes have no cycle; a graph
/// with one is refused, naming a node on a cycle.
pub fn ensure_acyclic(snapshot: &GraphSnapshot) -> (r: Result<(), OrchestrationError>)
    ensures
        r is Ok <==> acyclic(snapshot.nodes@, snapshot.edges@),
        r matches Err(e) ==> e matches OrchestrationError::DependencyCycle { node_id } && is_node_id(
            snapshot.nodes@,
            node_id@,
        ) && on_dependency_cycle(snapshot.nodes@, snapshot.edges@, node_id@),
{
    let ghost nodes = snapshot.nodes@;
    let ghost edges = snapshot.edges@;
    let n = snapshot.nodes.len();
    let mut removed: Vec<bool> = Vec::new();
    while removed.len() < n
        invariant
            removed@.len() <= n,
            n == snapshot.nodes@.len(),
            forall|i: int| 0 <= i < removed@.len() ==> !removed@[i],
        decreases n - removed@.len(),
    {
        removed.push(false);
    }
    let mut order: Vec<&str> = Vec::new();
    let mut progress = true;
    while progress
        invariant
            n == nodes.len(),
            nodes == snapshot.nodes@,
            edges == snapshot.edges@,
            removed@.len() == n,
            forall|i: int| 0 <= i < n && removed@[i] ==> has_id(str_views(order@), #[trigger] nodes[i].id@),
            topologically_ordered(nodes, edges, str_views(order@)),
            !progress ==> forall|i: int| 0 <= i < n && !removed@[i] ==> !prerequisites_placed(
                nodes,
                edges,
                #[trigger] nodes[i].id@,
                str_views(order@),
            ),
        decreases unmarked(removed@) + if progress { 1nat } else { 0nat },
    {
        progress = false;
        let ghost start = unmarked(removed@);
        let mut i: usize = 0;
        while i < n
            invariant
                n == nodes.len(),
                nodes == snapshot.nodes@,
                edges == snapshot.edges@,
                i <= n,
                removed@.len() == n,
                forall|j: int| 0 <= j < n && removed@[j] ==> has_id(str_views(order@), #[trigger] nodes[j].id@),
                topologically_ordered(nodes, edges, str_views(order@)),
                progress ==> unmarked(removed@) < start,
                !progress ==> unmarked(removed@) == start,
                !progress ==> forall|j: int| 0 <= j < i && !removed@[j] ==> !prerequisites_placed(
                    nodes,
                    edges,
                    #[trigger] nodes[j].id@,
                    str_views(order@),
                ),
            decreases n - i,
        {
            if !removed[i] {
                let id = snapshot.nodes[i].id.as_str();
                if placed_all(snapshot, id, &order) {
                    let ghost before = str_views(order@);
                    proof {
                        lemma_mark(removed@, i as int);
                    }
                    removed.set(i, true);
                    order.push(id);
                    progress = true;
                    proof {
                        let after = str_views(order@);
                        assert(after =~= before.push(id@));
                        assert forall|j: int| 0 <= j < n && removed@[j] implies has_id(after, #[trigger] nodes[j].id@) by {
                            if j == i {
                                assert(after[before.len() as int] == id@);
                            } else {
                                let q = choose|q: int| 0 <= q < before.len() && before[q] == nodes[j].id@;
                                assert(after[q] == before[q]);
                            }
                        }
                        assert forall|q: int, k: int|
                            0 <= q < after.len() && 0 <= k < edges.len() && dependency_from(nodes, #[trigger] edges[k], #[trigger] after[q])
                            implies occurs_before(after, edges[k].to_node_id@, q) by {
                            if q < before.len() {
                                assert(after[q] == before[q]);
                                assert(occurs_before(before, edges[k].to_node_id@, q));
                                let p = choose|p: int| 0 <= p < q && before[p] == edges[k].to_node_id@;
                                assert(after[p] == before[p]);
                            } else {
                                assert(has_id(before, edges[k].to_node_id@));
                                let p = choose|p: int| 0 <= p < before.len() && before[p] == edges[k].to_node_id@;
                                assert(after[p] == before[p]);
                            }
                        }
                    }
                }
            }
            i = i + 1;
        }
    }
    let mut first_left: usize = 0;
    while first_left < n && removed[first_left]
        invariant
            first_left <= n,
            removed@.len() == n,
            forall|j: int| 0 <= j < first_left ==> removed@[j],
        decreases n - first_left,
    {
        first_left = first_left + 1;
    }
    if first_left == n {
        proof {
            assert forall|j: int| 0 <= j < nodes.len() implies has_id(str_views(order@), #[trigger] nodes[j].id@) by {
                assert(removed@[j]);
            }
            lemma_order_ranks(nodes, edges, str_views(order@));
        }
        Ok(())
    } else {
        proof {
            lemma_stuck_has_cycle(nodes, edges, removed@, str_views(order@), first_left as int);
        }
        let closing = closing_dependency(snapshot, &order, first_left, Ghost(removed@));
        Err(OrchestrationError::DependencyCycle { node_id: snapshot.edges[closing].to_node_id.clone() })
    }
}


/// Ordered insertion keeps exactly the members of `s` and `x`.
proof fn lemma_insert_members(s: Seq<WorkNodeView>, x: WorkNodeView, y: WorkNodeView)
    ensures
        insert_in_order(s, x).contains(y) <==> (s.contains(y) || y == x),
    decreases s.len(),
{
    let r = insert_in_order(s, x);
    if s.len() == 0 {
        assert(r =~= seq![x]);
        assert(r[0] == x);
    } else if runs_before(x, s[0]) {
        assert(r =~= seq![x] + s);
        if r.contains(y) {
            let k = choose|k: int| 0 <= k < r.len() && r[k] == y;
            if k > 0 {
                assert(s[k - 1] == y);
            }
        }
        if s.contains(y) {
            let k = choose|k: int| 0 <= k < s.len() && s[k] == y;
            assert(r[k + 1] == y);
        }
        if y == x {
            assert(r[0] == y);
        }
    } else {
        let t = s.drop_first();
        lemma_insert_members(t, x, y);
        let rt = insert_in_order(t, x);
        assert(r =~= seq![s[0]] + rt);
        if r.contains(y) {
            let k = choose|k: int| 0 <= k < r.len() && r[k] == y;
            if k == 0 {
                assert(s[0] == y);
            } else {
                assert(rt[k - 1] == y);
                if t.contains(y) {
                    let q = choose|q: int| 0 <= q < t.len() && t[q] == y;
                    assert(s[q + 1] == y);
                }
            }
        }
        if s.contains(y) {
            let k = choose|k: int| 0 <= k < s.len() && s[k] == y;
            if k == 0 {
                assert(r[0] == y);
            } else {
                assert(t[k - 1] == y);
                let q = choose|q: int| 0 <= q < rt.len() && rt[q] == y;
                assert(r[q + 1] == y);
            }
        }
        if y == x {
            let q = choose|q: int| 0 <= q < rt.len() && rt[q] == y;
            assert(r[q + 1] == y);
        }
    }
}

/// Run order keeps exactly the members of `s`.
proof fn lemma_run_order_members(s: Seq<WorkNodeView>, y: WorkNodeView)
    ensures
        in_run_order(s).contains(y) <==> s.contains(y),
    decreases s.len(),
{
    if s.len() > 0 {
        let d = s.drop_last();
        lemma_run_order_members(d, y);
        lemma_insert_members(in_run_order(d), s.last(), y);
        if d.contains(y) {
            let k = choose|k: int| 0 <= k < d.len() && d[k] == y;
            assert(s[k] == y);
        }
        if y == s.last() {
            assert(s[s.len() - 1] == y);
        }
        if s.contains(y) {
            let k = choose|k: int| 0 <= k < s.len() && s[k] == y;
            if k < s.len() - 1 {
                assert(d[k] == y);
            }
        }
    }
}

/// A member that `f` maps to `Some(v)` puts `v` in the image.
pub(crate) proof fn lemma_filter_map_member<A, B>(s: Seq<A>, f: spec_fn(A) -> Option<B>, t: A, v: B)
    requires
        s.contains(t),
        f(t) == Some(v),
    ensures
        s.filter_map(f).contains(v),
    decreases s.len(),
{
    let d = s.drop_last();
    if s.last() == t {
        assert(s.filter_map(f) =~= d.filter_map(f) + seq![v]);
        assert(s.filter_map(f)[d.filter_map(f).len() as int] == v);
    } else {
        let k = choose|k: int| 0 <= k < s.len() && s[k] == t;
        assert(d[k] == t);
        lemma_filter_map_member(d, f, t, v);
        let q = choose|q: int| 0 <= q < d.filter_map(f).len() && d.filter_map(f)[q] == v;
        assert(s.filter_map(f)[q] == v);
    }
}

/// A map that sends every member to `None` has an empty image.
proof fn lemma_filter_map_none<A, B>(s: Seq<A>, f: spec_fn(A) -> Option<B>)
    requires
        forall|k: int| 0 <= k < s.len() ==> f(#[trigger] s[k]) is None,
    ensures
        s.filter_map(f) == Seq::<B>::empty(),
    decreases s.len(),
{
    if s.len() > 0 {
        let d = s.drop_last();
        assert forall|k: int| 0 <= k < d.len() implies f(#[trigger] d[k]) is None by {
            assert(d[k] == s[k]);
        }
        lemma_filter_map_none(d, f);
        assert(f(s[s.len() - 1]) is None);
    }
    assert(s.filter_map(f) =~= Seq::<B>::empty());
}

/// The last transition for `x` is one of the transitions, and one exists once any
/// transition names `x`.
pub(crate) proof fn lemma_last_transition(ts: Seq<NodeTransition>, x: Seq<char>)
    ensures
        last_transition(ts, x) matches Some(t) ==> ts.contains(t) && t.node_id@ == x,
        (exists|k: int| 0 <= k < ts.len() && (#[trigger] ts[k]).node_id@ == x) ==> last_transition(ts, x) is Some,
    decreases ts.len(),
{
    if ts.len() > 0 {
        let d = ts.drop_last();
        lemma_last_transition(d, x);
        if ts.last().node_id@ == x {
            assert(ts[ts.len() - 1] == ts.last());
        } else {
            if let Some(t) = last_transition(d, x) {
                let k = choose|k: int| 0 <= k < d.len() && d[k] == t;
                assert(ts[k] == t);
            }
            if exists|k: int| 0 <= k < ts.len() && (#[trigger] ts[k]).node_id@ == x {
                let k = choose|k: int| 0 <= k < ts.len() && (#[trigger] ts[k]).node_id@ == x;
                assert(k < ts.len() - 1);
                assert(d[k] == ts[k]);
            }
        }
    }
}

/// Applying transitions keeps every node where it was: the node found by id after them is
/// the one found before, transitioned.
pub(crate) proof fn lemma_projected_find(nodes: Seq<WorkNodeView>, ts: Seq<NodeTransition>, x: Seq<char>)
    ensures
        find_node(nodes.map_values(|n: WorkNodeView| projected_node(ts, n)), x) == match find_node(nodes, x) {
            Some(n) => Some(projected_node(ts, n)),
            None => None,
        },
{
    let after = nodes.map_values(|n: WorkNodeView| projected_node(ts, n));
    assert forall|j: int| 0 <= j < nodes.len() implies first_node_at(after, x, j) == first_node_at(nodes, x, j) by {
        assert(after[j].id@ == nodes[j].id@);
        if first_node_at(nodes, x, j) {
            assert forall|q: int| 0 <= q < j implies (#[trigger] after[q]).id@ != x by {
                assert(nodes[q].id@ != x);
            }
        }
        if first_node_at(after, x, j) {
            assert forall|q: int| 0 <= q < j implies (#[trigger] nodes[q]).id@ != x by {
                assert(after[q].id@ != x);
            }
        }
    }
    if exists|j: int| first_node_at(nodes, x, j) {
        let j = choose|j: int| first_node_at(nodes, x, j);
        lemma_first_node(nodes, x, j);
        assert(first_node_at(after, x, j));
        lemma_first_node(after, x, j);
    } else {
        assert(!exists|j: int| first_node_at(after, x, j));
    }
}

/// Whether a status counts as done, failed or cancelled.
spec fn settled_status(st: Seq<char>) -> bool {
    st == "done"@ || st == "failed"@ || st == "cancelled"@
}

/// What a release transition of `ts` says: some node with its id released to it.
proof fn lemma_release_origin(nodes: Seq<WorkNodeView>, edges: Seq<DependencyEdge>, ts: Seq<NodeTransition>, t: NodeTransition) -> (q: int)
    requires
        transition_views(ts) == in_run_order(nodes).filter_map(|n: WorkNodeView| release_of(nodes, edges, n)),
        ts.contains(t),
    ensures
        0 <= q < nodes.len(),
        nodes[q].id@ == t.node_id@,
        release_of(nodes, edges, nodes[q]) == Some(transition_view(t)),
        t.to@ == "ready"@ || t.to@ == "blocked"@,
{
    let f = |n: WorkNodeView| release_of(nodes, edges, n);
    let k = choose|k: int| 0 <= k < ts.len() && ts[k] == t;
    assert(transition_views(ts)[k] == transition_view(t));
    assert(in_run_order(nodes).filter_map(f).contains(transition_view(t)));
    in_run_order(nodes).lemma_filter_map_contains(f, transition_view(t));
    let m = choose|m: WorkNodeView| in_run_order(nodes).contains(m) && f(m) == Some(transition_view(t));
    lemma_run_order_members(nodes, m);
    let q = choose|q: int| 0 <= q < nodes.len() && nodes[q] == m;
    q
}

/// Applying a snapshot's releases never makes a node done, failed or cancelled: the
/// releases only move nodes to ready or blocked.
proof fn lemma_release_keeps_standing(nodes: Seq<WorkNodeView>, edges: Seq<DependencyEdge>, ts: Seq<NodeTransition>, x: Seq<char>)
    requires
        transition_views(ts) == in_run_order(nodes).filter_map(|n: WorkNodeView| release_of(nodes, edges, n)),
    ensures
        node_done(nodes.map_values(|n: WorkNodeView| projected_node(ts, n)), x) ==> node_done(nodes, x),
        node_broken(nodes.map_values(|n: WorkNodeView| projected_node(ts, n)), x) ==> node_broken(nodes, x),
{
    let after = nodes.map_values(|n: WorkNodeView| projected_node(ts, n));
    reveal_strlit("done");
    reveal_strlit("failed");
    reveal_strlit("cancelled");
    reveal_strlit("ready");
    reveal_strlit("blocked");
    assert("done"@.len() == 4 && "failed"@.len() == 6 && "cancelled"@.len() == 9);
    assert("ready"@.len() == 5 && "blocked"@.len() == 7);
    assert forall|j: int| 0 <= j < nodes.len() implies first_node_at(after, x, j) == first_node_at(nodes, x, j) by {
        assert(after[j].id@ == nodes[j].id@);
        if first_node_at(nodes, x, j) {
            assert forall|q: int| 0 <= q < j implies (#[trigger] after[q]).id@ != x by {
                assert(nodes[q].id@ != x);
            }
        }
        if first_node_at(after, x, j) {
            assert forall|q: int| 0 <= q < j implies (#[trigger] nodes[q]).id@ != x by {
                assert(after[q].id@ != x);
            }
        }
    }
    if exists|j: int| first_node_at(nodes, x, j) {
        let j = choose|j: int| first_node_at(nodes, x, j);
        lemma_first_node(nodes, x, j);
        assert(first_node_at(after, x, j));
        lemma_first_node(after, x, j);
        lemma_last_transition(ts, x);
        if let Some(t) = last_transition(ts, x) {
            lemma_release_origin(nodes, edges, ts, t);
            assert(after[j].status == t.to);
        } else {
            assert(after[j] == nodes[j]);
        }
    } else {
        assert(!exists|j: int| first_node_at(after, x, j));
    }
}

/// A node is never both done and failed or cancelled.
proof fn lemma_done_not_broken(nodes: Seq<WorkNodeView>, x: Seq<char>)
    ensures
        !(node_done(nodes, x) && node_broken(nodes, x)),
{
    reveal_strlit("done");
    reveal_strlit("failed");
    reveal_strlit("cancelled");
    assert("done"@.len() == 4 && "failed"@.len() == 6 && "cancelled"@.len() == 9);
}

/// Releasing is idempotent: once the releases of a snapshot are applied, releasing again
/// over the result changes nothing.
pub proof fn law_release_is_idempotent(nodes: Seq<WorkNodeView>, edges: Seq<DependencyEdge>, ts: Seq<NodeTransition>)
    requires
        transition_views(ts) == in_run_order(nodes).filter_map(|n: WorkNodeView| release_of(nodes, edges, n)),
    ensures
        ({
            let after = nodes.map_values(|n: WorkNodeView| projected_node(ts, n));
            in_run_order(after).filter_map(|n: WorkNodeView| release_of(after, edges, n)) == Seq::<TransitionView>::empty()
        }),
{
    let after = nodes.map_values(|n: WorkNodeView| projected_node(ts, n));
    let f1 = |n: WorkNodeView| release_of(nodes, edges, n);
    let f2 = |n: WorkNodeView| release_of(after, edges, n);
    reveal_strlit("ready");
    reveal_strlit("blocked");
    reveal_strlit("draft");
    assert("ready"@.len() == 5 && "blocked"@.len() == 7 && "draft"@.len() == 5);
    assert forall|x: Seq<char>| #![trigger node_done(after, x)] #![trigger node_broken(after, x)]
        (node_done(after, x) ==> node_done(nodes, x)) && (node_broken(after, x) ==> node_broken(nodes, x)) by {
        lemma_release_keeps_standing(nodes, edges, ts, x);
    }
    assert forall|i: int| 0 <= i < after.len() implies f2(#[trigger] after[i]) is None by {
        let n = nodes[i];
        let pre = prerequisite_ids(edges, n.id@);
        assert(all_done(after, pre) ==> all_done(nodes, pre)) by {
            if all_done(after, pre) {
                assert forall|k: int| 0 <= k < pre.len() implies node_done(nodes, #[trigger] pre[k]) by {
                    assert(node_done(after, pre[k]));
                }
            }
        }
        assert(any_broken(after, pre) ==> any_broken(nodes, pre)) by {
            if any_broken(after, pre) {
                let k = choose|k: int| 0 <= k < pre.len() && node_broken(after, #[trigger] pre[k]);
                assert(node_broken(nodes, pre[k]));
            }
        }
        assert(!(all_done(nodes, pre) && any_broken(nodes, pre))) by {
            if all_done(nodes, pre) && any_broken(nodes, pre) {
                let k = choose|k: int| 0 <= k < pre.len() && node_broken(nodes, #[trigger] pre[k]);
                assert(node_done(nodes, pre[k]));
                lemma_done_not_broken(nodes, pre[k]);
            }
        }
        lemma_last_transition(ts, n.id@);
        if let Some(t) = last_transition(ts, n.id@) {
            let q = lemma_release_origin(nodes, edges, ts, t);
            assert(after[i].status == t.to);
            assert(prerequisite_ids(edges, nodes[q].id@) == pre);
        } else {
            assert(after[i] == n);
            if f1(n) is Some {
                assert(nodes[i] == n);
                lemma_run_order_members(nodes, n);
                assert(in_run_order(nodes).contains(n));
                lemma_filter_map_member(in_run_order(nodes), f1, n, f1(n)->0);
                let k = choose|k: int| 0 <= k < transition_views(ts).len() && transition_views(ts)[k] == f1(n)->0;
                assert(transition_view(ts[k]) == f1(n)->0);
                assert(ts[k].node_id@ == n.id@);
            }
        }
    }
    let o = in_run_order(after);
    assert forall|k: int| 0 <= k < o.len() implies f2(#[trigger] o[k]) is None by {
        assert(o.contains(o[k]));
        lemma_run_order_members(after, o[k]);
        let i = choose|i: int| 0 <= i < after.len() && after[i] == o[k];
    }
    lemma_filter_map_none(o, f2);
}

/// Nodes that agree on ids and parents have the same children.
proof fn lemma_child_ids_agree(a: Seq<WorkNodeView>, b: Seq<WorkNodeView>, id: Seq<char>)
    requires
        a.len() == b.len(),
        forall|i: int| 0 <= i < a.len() ==> (#[trigger] a[i]).id == b[i].id && a[i].parent_id == b[i].parent_id,
    ensures
        child_ids(a, id) == child_ids(b, id),
    decreases a.len(),
{
    reveal(Seq::filter);
    let p = child_of(id);
    if a.len() > 0 {
        let da = a.drop_last();
        let db = b.drop_last();
        assert forall|i: int| 0 <= i < da.len() implies (#[trigger] da[i]).id == db[i].id && da[i].parent_id == db[i].parent_id by {
            assert(da[i] == a[i]);
            assert(db[i] == b[i]);
        }
        lemma_child_ids_agree(da, db, id);
        assert(a.last() == a[a.len() - 1]);
        assert(b.last() == b[b.len() - 1]);
        assert(p(a.last()) == p(b.last()));
        if p(a.last()) {
            assert(a.filter(p) == da.filter(p).push(a.last()));
            assert(b.filter(p) == db.filter(p).push(b.last()));
            assert(child_ids(a, id) =~= child_ids(da, id).push(a.last().id@));
            assert(child_ids(b, id) =~= child_ids(db, id).push(b.last().id@));
        } else {
            assert(a.filter(p) == da.filter(p));
            assert(b.filter(p) == db.filter(p));
        }
    } else {
        assert(child_ids(a, id) =~= child_ids(b, id));
    }
}

/// What the join transitions of `ts` say of the nodes they name: each transition is the
/// join of the one node with its id.
proof fn lemma_join_origin(nodes: Seq<WorkNodeView>, ts: Seq<NodeTransition>, t: NodeTransition, j: int)
    requires
        distinct_ids(node_id_views(nodes)),
        transition_views(ts) == in_run_order(nodes).filter_map(|n: WorkNodeView| join_of(nodes, n)),
        ts.contains(t),
        0 <= j < nodes.len(),
        nodes[j].id@ == t.node_id@,
    ensures
        join_of(nodes, nodes[j]) == Some(transition_view(t)),
{
    let f = |n: WorkNodeView| join_of(nodes, n);
    let k = choose|k: int| 0 <= k < ts.len() && ts[k] == t;
    assert(transition_views(ts)[k] == transition_view(t));
    assert(in_run_order(nodes).filter_map(f).contains(transition_view(t)));
    in_run_order(nodes).lemma_filter_map_contains(f, transition_view(t));
    let m = choose|m: WorkNodeView| in_run_order(nodes).contains(m) && f(m) == Some(transition_view(t));
    lemma_run_order_members(nodes, m);
    let q = choose|q: int| 0 <= q < nodes.len() && nodes[q] == m;
    assert(node_id_views(nodes)[q] == m.id@);
    assert(node_id_views(nodes)[j] == nodes[j].id@);
    assert(q == j);
}

/// Applying a snapshot's joins changes no node's done or failed-or-cancelled standing.
proof fn lemma_join_keeps_standing(nodes: Seq<WorkNodeView>, ts: Seq<NodeTransition>, x: Seq<char>)
    requires
        distinct_ids(node_id_views(nodes)),
        transition_views(ts) == in_run_order(nodes).filter_map(|n: WorkNodeView| join_of(nodes, n)),
    ensures
        node_done(nodes.map_values(|n: WorkNodeView| projected_node(ts, n)), x) == node_done(nodes, x),
        node_broken(nodes.map_values(|n: WorkNodeView| projected_node(ts, n)), x) == node_broken(nodes, x),
{
    let after = nodes.map_values(|n: WorkNodeView| projected_node(ts, n));
    reveal_strlit("done");
    reveal_strlit("failed");
    reveal_strlit("cancelled");
    reveal_strlit("in_progress");
    reveal_strlit("blocked");
    reveal_strlit("waiting");
    assert("done"@.len() == 4 && "failed"@.len() == 6 && "cancelled"@.len() == 9);
    assert("in_progress"@.len() == 11 && "blocked"@.len() == 7 && "waiting"@.len() == 7);
    assert("blocked"@[0] != "waiting"@[0]);
    assert forall|j: int| 0 <= j < nodes.len() implies first_node_at(after, x, j) == first_node_at(nodes, x, j) by {
        assert(after[j].id@ == nodes[j].id@);
        if first_node_at(nodes, x, j) {
            assert forall|q: int| 0 <= q < j implies (#[trigger] after[q]).id@ != x by {
                assert(nodes[q].id@ != x);
            }
        }
        if first_node_at(after, x, j) {
            assert forall|q: int| 0 <= q < j implies (#[trigger] nodes[q]).id@ != x by {
                assert(after[q].id@ != x);
            }
        }
    }
    if exists|j: int| first_node_at(nodes, x, j) {
        let j = choose|j: int| first_node_at(nodes, x, j);
        lemma_first_node(nodes, x, j);
        assert(first_node_at(after, x, j));
        lemma_first_node(after, x, j);
        lemma_last_transition(ts, x);
        if let Some(t) = last_transition(ts, x) {
            lemma_join_origin(nodes, ts, t, j);
            assert(after[j].status == t.to);
        } else {
            assert(after[j] == nodes[j]);
        }
    } else {
        assert(!exists|j: int| first_node_at(after, x, j));
    }
}

/// Joins complete once: once the joins of a snapshot with distinct node ids are applied,
/// joining again over the result changes nothing.
pub proof fn law_join_completes_once(nodes: Seq<WorkNodeView>, ts: Seq<NodeTransition>)
    requires
        distinct_ids(node_id_views(nodes)),
        transition_views(ts) == in_run_order(nodes).filter_map(|n: WorkNodeView| join_of(nodes, n)),
    ensures
        ({
            let after = nodes.map_values(|n: WorkNodeView| projected_node(ts, n));
            in_run_order(after).filter_map(|n: WorkNodeView| join_of(after, n)) == Seq::<TransitionView>::empty()
        }),
{
    let after = nodes.map_values(|n: WorkNodeView| projected_node(ts, n));
    let f1 = |n: WorkNodeView| join_of(nodes, n);
    let f2 = |n: WorkNodeView| join_of(after, n);
    reveal_strlit("in_progress");
    reveal_strlit("blocked");
    reveal_strlit("waiting");
    assert("in_progress"@.len() == 11 && "blocked"@.len() == 7 && "waiting"@.len() == 7);
    assert("blocked"@[0] != "waiting"@[0]);
    assert forall|x: Seq<char>| #![trigger node_done(after, x)] #![trigger node_broken(after, x)]
        node_done(after, x) == node_done(nodes, x) && node_broken(after, x) == node_broken(nodes, x) by {
        lemma_join_keeps_standing(nodes, ts, x);
    }
    assert forall|q: int| 0 <= q < after.len() implies (#[trigger] after[q]).id == nodes[q].id && after[q].parent_id
        == nodes[q].parent_id by {}
    assert forall|i: int| 0 <= i < after.len() implies f2(#[trigger] after[i]) is None by {
        let n = nodes[i];
        lemma_child_ids_agree(after, nodes, n.id@);
        let children = child_ids(nodes, n.id@);
        assert(all_done(after, children) == all_done(nodes, children)) by {
            if all_done(nodes, children) {
                assert forall|k: int| 0 <= k < children.len() implies node_done(after, #[trigger] children[k]) by {
                    assert(node_done(nodes, children[k]));
                }
            }
            if all_done(after, children) {
                assert forall|k: int| 0 <= k < children.len() implies node_done(nodes, #[trigger] children[k]) by {
                    assert(node_done(after, children[k]));
                }
            }
        }
        assert(any_broken(after, children) == any_broken(nodes, children)) by {
            if any_broken(nodes, children) {
                let k = choose|k: int| 0 <= k < children.len() && node_broken(nodes, #[trigger] children[k]);
                assert(node_broken(after, children[k]));
            }
            if any_broken(after, children) {
                let k = choose|k: int| 0 <= k < children.len() && node_broken(after, #[trigger] children[k]);
                assert(node_broken(nodes, children[k]));
            }
        }
        lemma_last_transition(ts, n.id@);
        if let Some(t) = last_transition(ts, n.id@) {
            lemma_join_origin(nodes, ts, t, i);
            assert(after[i].status == t.to);
        } else {
            assert(after[i] == n);
            if f1(n) is Some {
                lemma_run_order_members(nodes, n);
                assert(in_run_order(nodes).contains(n));
                lemma_filter_map_member(in_run_order(nodes), f1, n, f1(n)->0);
                let k = choose|k: int| 0 <= k < transition_views(ts).len() && transition_views(ts)[k] == f1(n)->0;
                assert(transition_view(ts[k]) == f1(n)->0);
                assert(ts[k].node_id@ == n.id@);
            }
        }
    }
    let o = in_run_order(after);
    assert forall|k: int| 0 <= k < o.len() implies f2(#[trigger] o[k]) is None by {
        assert(o.contains(o[k]));
        lemma_run_order_members(after, o[k]);
        let i = choose|i: int| 0 <= i < after.len() && after[i] == o[k];
    }
    lemma_filter_map_none(o, f2);
}

} // verus!
