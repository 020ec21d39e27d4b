//! The work-graph view orchestration selects from, and what it writes back.

use vstd::prelude::*;
use crate::text::{
    str_eq, str_lt, str_starts_with, has_prefix, seq_lt, lemma_seq_lt_irreflexive, lemma_seq_lt_total,
    lemma_seq_lt_transitive,
};
use crate::runtime::orchestration::{node_terminal, OrchestrationError};

verus! {

/// The owner of the graph transaction that applies node transitions.
pub const GRAPH_TRANSACTION_OWNER: &'static str = "CORE-005";

/// The run attached to a work node.
#[derive(Debug, Clone, PartialEq, Eq)]
pub struct RunRef {
    /// Run id.
    pub run_id: String,
    /// Run generation.
    pub generation: u64,
    /// Run status.
    pub status: String,
}

/// One work node as orchestration sees it.
#[derive(Debug, Clone, PartialEq, Eq)]
pub struct WorkNodeView {
    /// Node id.
    pub id: String,
    /// Node kind.
    pub kind: String,
    /// Node status.
    pub status: String,
    /// The node that spawned it.
    pub parent_id: Option<String>,
    /// Higher runs first.
    pub priority: i16,
    /// Row revision, for compare-and-set.
    pub revision: u64,
    /// The run executing it, if any.
    pub run: Option<RunRef>,
}

/// Whether a run status parks the run (waiting or suspended).
pub open spec fn parked_run_status(s: Seq<char>) -> bool {
    has_prefix(s, "WAITING_"@) || s == "SUSPENDED"@
}

/// Whether a run status holds an execution slot.
pub open spec fn slot_run_status(s: Seq<char>) -> bool {
    s == "RUNNING"@ || s == "VERIFYING"@
}

/// Whether a node's run is parked.
pub open spec fn node_parked(n: WorkNodeView) -> bool {
    n.run matches Some(r) && parked_run_status(r.status@)
}

/// Whether a node's run holds an execution slot.
pub open spec fn node_holds_slot(n: WorkNodeView) -> bool {
    n.run matches Some(r) && slot_run_status(r.status@)
}

impl WorkNodeView {
    /// Whether the node can no longer change.
    pub fn is_terminal(&self) -> (r: bool)
        ensures
            r == node_terminal(self.status@),
    {
        crate::runtime::orchestration::is_terminal_node_status(self.status.as_str())
    }

    /// Whether the node's run is parked on a wait or suspended.
    pub fn is_parked(&self) -> (r: bool)
        ensures
            r == node_parked(*self),
    {
        match &self.run {
            Some(run) => str_starts_with(run.status.as_str(), "WAITING_") || str_eq(run.status.as_str(), "SUSPENDED"),
            None => false,
        }
    }

    /// Whether the node's run holds an execution slot.
    pub fn holds_slot(&self) -> (r: bool)
        ensures
            r == node_holds_slot(*self),
    {
        match &self.run {
            Some(run) => str_eq(run.status.as_str(), "RUNNING") || str_eq(run.status.as_str(), "VERIFYING"),
            None => false,
        }
    }
}

/// A typed edge between work nodes; `depends_on` reads `from` depends on `to`.
#[derive(Debug, Clone, PartialEq, Eq)]
pub struct DependencyEdge {
    /// The dependent node.
    pub from_node_id: String,
    /// The prerequisite node.
    pub to_node_id: String,
    /// Edge kind.
    pub kind: String,
}

/// A snapshot of one workspace's work graph at a revision.
#[derive(Debug, Clone, PartialEq, Eq)]
pub struct GraphSnapshot {
    /// Workspace.
    pub workspace_id: String,
    /// Graph revision.
    pub revision: u64,
    /// Nodes.
    pub nodes: Vec<WorkNodeView>,
    /// Edges.
    pub edges: Vec<DependencyEdge>,
}

/// Whether `i` is the first node with id `id`.
pub open spec fn first_node_at(nodes: Seq<WorkNodeView>, id: Seq<char>, i: int) -> bool {
    &&& 0 <= i < nodes.len()
    &&& nodes[i].id@ == id
    &&& forall|j: int| 0 <= j < i ==> (#[trigger] nodes[j]).id@ != id
}

/// The first node with id `id`, if any.
pub open spec fn find_node(nodes: Seq<WorkNodeView>, id: Seq<char>) -> Option<WorkNodeView> {
    if exists|i: int| first_node_at(nodes, id, i) {
        Some(nodes[choose|i: int| first_node_at(nodes, id, i)])
    } else {
        None
    }
}

/// Whether an edge says `from` depends on something.
pub open spec fn is_dependency(e: DependencyEdge) -> bool {
    e.kind@ == "depends_on"@
}

/// The predicate "the edge is a dependency of `id`".
pub open spec fn prerequisite_edge(id: Seq<char>) -> spec_fn(DependencyEdge) -> bool {
    |e: DependencyEdge| is_dependency(e) && e.from_node_id@ == id
}

/// The predicate "the edge makes something depend on `id`".
pub open spec fn dependent_edge(id: Seq<char>) -> spec_fn(DependencyEdge) -> bool {
    |e: DependencyEdge| is_dependency(e) && e.to_node_id@ == id
}

/// The predicate "the node's parent is `id`".
pub open spec fn child_of(id: Seq<char>) -> spec_fn(WorkNodeView) -> bool {
    |n: WorkNodeView| n.parent_id matches Some(p) && p@ == id
}

/// The prerequisites of `id`, in edge order.
pub open spec fn prerequisite_ids(edges: Seq<DependencyEdge>, id: Seq<char>) -> Seq<Seq<char>> {
    edges.filter(prerequisite_edge(id)).map_values(|e: DependencyEdge| e.to_node_id@)
}

/// The dependents of `id`, in edge order.
pub open spec fn dependent_ids(edges: Seq<DependencyEdge>, id: Seq<char>) -> Seq<Seq<char>> {
    edges.filter(dependent_edge(id)).map_values(|e: DependencyEdge| e.from_node_id@)
}

/// The children of `id`, in node order.
pub open spec fn child_ids(nodes: Seq<WorkNodeView>, id: Seq<char>) -> Seq<Seq<char>> {
    nodes.filter(child_of(id)).map_values(|n: WorkNodeView| n.id@)
}

/// The views of a sequence of string slices.
pub open spec fn str_views(s: Seq<&str>) -> Seq<Seq<char>> {
    s.map_values(|x: &str| x@)
}

/// Whether `id` occurs among `ids`.
pub open spec fn has_id(ids: Seq<Seq<char>>, id: Seq<char>) -> bool {
    exists|k: int| 0 <= k < ids.len() && ids[k] == id
}

/// The status a prerequisite reports when it is not done: its own status, or `missing`.
pub open spec fn prerequisite_state(nodes: Seq<WorkNodeView>, id: Seq<char>) -> Option<(Seq<char>, Seq<char>)> {
    match find_node(nodes, id) {
        Some(n) => if n.status@ == "done"@ {
            None
        } else {
            Some((n.id@, n.status@))
        },
        None => Some((id, "missing"@)),
    }
}

/// The first prerequisite of a list that is not done: its id and its status.
pub open spec fn first_unsatisfied(nodes: Seq<WorkNodeView>, prereqs: Seq<Seq<char>>) -> Option<(Seq<char>, Seq<char>)>
    decreases prereqs.len(),
{
    if prereqs.len() == 0 {
        None
    } else {
        match prerequisite_state(nodes, prereqs[0]) {
            Some(x) => Some(x),
            None => first_unsatisfied(nodes, prereqs.drop_first()),
        }
    }
}

/// Count of the nodes holding an execution slot.
pub open spec fn slots_in(nodes: Seq<WorkNodeView>) -> nat
    decreases nodes.len(),
{
    if nodes.len() == 0 {
        0
    } else {
        slots_in(nodes.drop_last()) + if node_holds_slot(nodes.last()) {
            1nat
        } else {
            0nat
        }
    }
}

impl GraphSnapshot {
    /// The first node with id `node_id`.
    pub fn node(&self, node_id: &str) -> (r: Option<&WorkNodeView>)
        ensures
            match r {
                Some(n) => find_node(self.nodes@, node_id@) == Some(*n),
                None => find_node(self.nodes@, node_id@) is None,
            },
    {
        let mut i: usize = 0;
        while i < self.nodes.len()
            invariant
                i <= self.nodes@.len(),
                forall|j: int| 0 <= j < i ==> (#[trigger] self.nodes@[j]).id@ != node_id@,
            decreases self.nodes@.len() - i,
        {
            if str_eq(self.nodes[i].id.as_str(), node_id) {
                proof {
                    lemma_first_node(self.nodes@, node_id@, i as int);
                }
                return Some(&self.nodes[i]);
            }
            i = i + 1;
        }
        proof {
            assert forall|k: int| !first_node_at(self.nodes@, node_id@, k) by {
                if first_node_at(self.nodes@, node_id@, k) {
                    assert(self.nodes@[k].id@ == node_id@);
                }
            }
        }
        None
    }

    /// The nodes `node_id` depends on, in edge order.
    pub fn prerequisites<'a>(&'a self, node_id: &str) -> (r: Vec<&'a str>)
        ensures
            str_views(r@) == prerequisite_ids(self.edges@, node_id@),
    {
        let ghost pred = prerequisite_edge(node_id@);
        let ghost f = |e: DependencyEdge| e.to_node_id@;
        let mut out: Vec<&str> = Vec::new();
        let mut i: usize = 0;
        proof {
            reveal(Seq::filter);
            assert(self.edges@.take(0).filter(pred) =~= Seq::<DependencyEdge>::empty());
            assert(str_views(out@) =~= self.edges@.take(0).filter(pred).map_values(f));
        }
        while i < self.edges.len()
            invariant
                i <= self.edges@.len(),
                pred == prerequisite_edge(node_id@),
                f == (|e: DependencyEdge| e.to_node_id@),
                str_views(out@) == self.edges@.take(i as int).filter(pred).map_values(f),
            decreases self.edges@.len() - i,
        {
            let edge = &self.edges[i];
            let keep = str_eq(edge.kind.as_str(), "depends_on") && str_eq(edge.from_node_id.as_str(), node_id);
            let ghost before = out@;
            if keep {
                out.push(edge.to_node_id.as_str());
            }
            proof {
                reveal(Seq::filter);
                let t = self.edges@.take(i + 1);
                assert(t.drop_last() =~= self.edges@.take(i as int));
                assert(t.last() == self.edges@[i as int]);
                if keep {
                    assert(str_views(out@) =~= str_views(before).push(edge.to_node_id@));
                    assert(t.filter(pred).map_values(f) =~= self.edges@.take(i as int).filter(pred).map_values(f).push(
                        f(*edge),
                    ));
                } else {
                    assert(str_views(out@) =~= str_views(before));
                }
            }
            i = i + 1;
        }
        proof {
            assert(self.edges@.take(self.edges@.len() as int) =~= self.edges@);
        }
        out
    }

    /// The nodes that depend on `node_id`, in edge order.
    pub fn dependents<'a>(&'a self, node_id: &str) -> (r: Vec<&'a str>)
        ensures
            str_views(r@) == dependent_ids(self.edges@, node_id@),
    {
        let ghost pred = dependent_edge(node_id@);
        let ghost f = |e: DependencyEdge| e.from_node_id@;
        let mut out: Vec<&str> = Vec::new();
        let mut i: usize = 0;
        proof {
            reveal(Seq::filter);
            assert(self.edges@.take(0).filter(pred) =~= Seq::<DependencyEdge>::empty());
            assert(str_views(out@) =~= self.edges@.take(0).filter(pred).map_values(f));
        }
        while i < self.edges.len()
            invariant
                i <= self.edges@.len(),
                pred == dependent_edge(node_id@),
                f == (|e: DependencyEdge| e.from_node_id@),
                str_views(out@) == self.edges@.take(i as int).filter(pred).map_values(f),
            decreases self.edges@.len() - i,
        {
            let edge = &self.edges[i];
            let keep = str_eq(edge.kind.as_str(), "depends_on") && str_eq(edge.to_node_id.as_str(), node_id);
            let ghost before = out@;
            if keep {
                out.push(edge.from_node_id.as_str());
            }
            proof {
                reveal(Seq::filter);
                let t = self.edges@.take(i + 1);
                assert(t.drop_last() =~= self.edges@.take(i as int));
                assert(t.last() == self.edges@[i as int]);
                if keep {
                    assert(str_views(out@) =~= str_views(before).push(edge.from_node_id@));
                    assert(t.filter(pred).map_values(f) =~= self.edges@.take(i as int).filter(pred).map_values(f).push(
                        f(*edge),
                    ));
                } else {
                    assert(str_views(out@) =~= str_views(before));
                }
            }
            i = i + 1;
        }
        proof {
            assert(self.edges@.take(self.edges@.len() as int) =~= self.edges@);
        }
        out
    }

    /// The nodes whose parent is `node_id`, in node order.
    pub fn children<'a>(&'a self, node_id: &str) -> (r: Vec<&'a str>)
        ensures
            str_views(r@) == child_ids(self.nodes@, node_id@),
    {
        let ghost pred = child_of(node_id@);
        let ghost f = |n: WorkNodeView| n.id@;
        let mut out: Vec<&str> = Vec::new();
        let mut i: usize = 0;
        proof {
            reveal(Seq::filter);
            assert(self.nodes@.take(0).filter(pred) =~= Seq::<WorkNodeView>::empty());
            assert(str_views(out@) =~= self.nodes@.take(0).filter(pred).map_values(f));
        }
        while i < self.nodes.len()
            invariant
                i <= self.nodes@.len(),
                pred == child_of(node_id@),
                f == (|n: WorkNodeView| n.id@),
                str_views(out@) == self.nodes@.take(i as int).filter(pred).map_values(f),
            decreases self.nodes@.len() - i,
        {
            let node = &self.nodes[i];
            let keep = match &node.parent_id {
                Some(p) => str_eq(p.as_str(), node_id),
                None => false,
            };
            let ghost before = out@;
            if keep {
                out.push(node.id.as_str());
            }
            proof {
                reveal(Seq::filter);
                let t = self.nodes@.take(i + 1);
                assert(t.drop_last() =~= self.nodes@.take(i as int));
                assert(t.last() == self.nodes@[i as int]);
                if keep {
                    assert(str_views(out@) =~= str_views(before).push(node.id@));
                    assert(t.filter(pred).map_values(f) =~= self.nodes@.take(i as int).filter(pred).map_values(f).push(
                        f(*node),
                    ));
                } else {
                    assert(str_views(out@) =~= str_views(before));
                }
            }
            i = i + 1;
        }
        proof {
            assert(self.nodes@.take(self.nodes@.len() as int) =~= self.nodes@);
        }
        out
    }

    /// How many nodes hold an execution slot, counted from durable run state.
    pub fn active_slots(&self) -> (r: usize)
        ensures
            r == slots_in(self.nodes@),
    {
        let mut count: usize = 0;
        let mut i: usize = 0;
        while i < self.nodes.len()
            invariant
                i <= self.nodes@.len(),
                count == slots_in(self.nodes@.take(i as int)),
                count <= i,
            decreases self.nodes@.len() - i,
        {
            proof {
                assert(self.nodes@.take(i + 1).drop_last() =~= self.nodes@.take(i as int));
            }
            if self.nodes[i].holds_slot() {
                count = count + 1;
            }
            i = i + 1;
        }
        proof {
            assert(self.nodes@.take(self.nodes@.len() as int) =~= self.nodes@);
        }
        count
    }

    /// The first prerequisite of `node_id` that is not done, with its status (`missing`
    /// when it is not in the graph).
    pub fn unsatisfied_prerequisite(&self, node_id: &str) -> (r: Option<(String, String)>)
        ensures
            match first_unsatisfied(self.nodes@, prerequisite_ids(self.edges@, node_id@)) {
                Some((id, status)) => r matches Some((a, b)) && a@ == id && b@ == status,
                None => r is None,
            },
    {
        let prereqs = self.prerequisites(node_id);
        let ghost ids = str_views(prereqs@);
        let mut i: usize = 0;
        proof {
            assert(ids.skip(0) =~= ids);
        }
        while i < prereqs.len()
            invariant
                i <= prereqs@.len(),
                ids == str_views(prereqs@),
                ids == prerequisite_ids(self.edges@, node_id@),
                first_unsatisfied(self.nodes@, ids) == first_unsatisfied(self.nodes@, ids.skip(i as int)),
            decreases prereqs@.len() - i,
        {
            let prerequisite = prereqs[i];
            proof {
                assert(ids.skip(i as int)[0] == prerequisite@);
                assert(ids.skip(i as int).drop_first() =~= ids.skip(i + 1));
            }
            match self.node(prerequisite) {
                Some(node) => {
                    if !str_eq(node.status.as_str(), "done") {
                        return Some((node.id.clone(), node.status.clone()));
                    }
                },
                None => {
                    return Some((crate::text::owned(prerequisite), crate::text::owned("missing")));
                },
            }
            i = i + 1;
        }
        None
    }

    /// Whether every prerequisite of `node_id` is in the graph and done.
    pub fn prerequisites_satisfied(&self, node_id: &str) -> (r: bool)
        ensures
            r == first_unsatisfied(self.nodes@, prerequisite_ids(self.edges@, node_id@)) is None,
    {
        self.unsatisfied_prerequisite(node_id).is_none()
    }
}

/// A node found by id carries that id.
pub proof fn lemma_found_id(nodes: Seq<WorkNodeView>, id: Seq<char>)
    ensures
        find_node(nodes, id) matches Some(n) ==> n.id@ == id,
{
    if exists|i: int| first_node_at(nodes, id, i) {
        let i = choose|i: int| first_node_at(nodes, id, i);
        assert(nodes[i].id@ == id);
    }
}

/// The first node with a given id is found at the first index holding it.
pub proof fn lemma_first_node(nodes: Seq<WorkNodeView>, id: Seq<char>, i: int)
    requires
        first_node_at(nodes, id, i),
    ensures
        find_node(nodes, id) == Some(nodes[i]),
{
    let c = choose|c: int| first_node_at(nodes, id, c);
    if c < i {
        assert(nodes[c].id@ != id);
    } else if c > i {
        assert(nodes[i].id@ != id);
    }
}


/// Whether no id occurs twice.
pub open spec fn distinct_ids(ids: Seq<Seq<char>>) -> bool {
    forall|i: int, j: int| 0 <= i < j < ids.len() ==> ids[i] != ids[j]
}

/// How many entries of `s` are `false`.
pub open spec fn unmarked(s: Seq<bool>) -> nat
    decreases s.len(),
{
    if s.len() == 0 {
        0
    } else {
        unmarked(s.drop_last()) + if s.last() {
            0nat
        } else {
            1nat
        }
    }
}

/// Marking an unmarked entry leaves one fewer unmarked.
pub(crate) proof fn lemma_mark(s: Seq<bool>, j: int)
    requires
        0 <= j < s.len(),
        !s[j],
    ensures
        unmarked(s.update(j, true)) + 1 == unmarked(s),
    decreases s.len(),
{
    let t = s.update(j, true);
    if j == s.len() - 1 {
        assert(t.drop_last() =~= s.drop_last());
    } else {
        assert(t.drop_last() =~= s.drop_last().update(j, true));
        lemma_mark(s.drop_last(), j);
    }
}

/// Whether `x` is among `v`.
pub(crate) fn contains_str(v: &Vec<&str>, x: &str) -> (r: bool)
    ensures
        r == has_id(str_views(v@), x@),
{
    let mut i: usize = 0;
    while i < v.len()
        invariant
            i <= v@.len(),
            forall|k: int| 0 <= k < i ==> str_views(v@)[k] != x@,
        decreases v@.len() - i,
    {
        if str_eq(v[i], x) {
            proof {
                assert(str_views(v@)[i as int] == x@);
            }
            return true;
        }
        i = i + 1;
    }
    false
}

/// Whether `ids` ascend strictly.
pub open spec fn strictly_ascending(ids: Seq<Seq<char>>) -> bool {
    forall|i: int, j: int| 0 <= i < j < ids.len() ==> seq_lt(#[trigger] ids[i], #[trigger] ids[j])
}

/// Add `x` to the strictly ascending `v`, unless it is already there.
pub(crate) fn insert_sorted_unique<'a>(v: &mut Vec<&'a str>, x: &'a str)
    requires
        strictly_ascending(str_views(old(v)@)),
    ensures
        strictly_ascending(str_views(final(v)@)),
        forall|y: Seq<char>| has_id(str_views(final(v)@), y) <==> (has_id(str_views(old(v)@), y) || y == x@),
{
    let ghost w0 = str_views(v@);
    let mut p: usize = 0;
    while p < v.len() && str_lt(v[p], x)
        invariant
            p <= v@.len(),
            w0 == str_views(v@),
            forall|k: int| 0 <= k < p ==> seq_lt(#[trigger] w0[k], x@),
        decreases v@.len() - p,
    {
        proof {
            assert(w0[p as int] == v@[p as int]@);
        }
        p = p + 1;
    }
    proof {
        if p < v@.len() {
            assert(w0[p as int] == v@[p as int]@);
            lemma_seq_lt_total(w0[p as int], x@);
        }
    }
    if p < v.len() && str_eq(v[p], x) {
        proof {
            assert(w0[p as int] == x@);
        }
    } else {
        v.insert(p, x);
        proof {
            let w = str_views(v@);
            assert(w =~= w0.insert(p as int, x@));
            if p < w0.len() {
                lemma_seq_lt_irreflexive(x@);
                assert(seq_lt(x@, w0[p as int]));
            }
            assert forall|a: int, b: int| 0 <= a < b < w.len() implies seq_lt(#[trigger] w[a], #[trigger] w[b]) by {
                if b < p {
                } else if a < p && b == p {
                } else if a < p {
                    assert(w[b] == w0[b - 1]);
                    lemma_seq_lt_transitive(w0[a], w0[p as int], w0[b - 1]);
                } else if a == p {
                    assert(w[b] == w0[b - 1]);
                    if b - 1 > p {
                        lemma_seq_lt_transitive(x@, w0[p as int], w0[b - 1]);
                    }
                } else {
                    assert(w[a] == w0[a - 1]);
                    assert(w[b] == w0[b - 1]);
                }
            }
            assert forall|y: Seq<char>| has_id(w, y) <==> (has_id(w0, y) || y == x@) by {
                if has_id(w, y) {
                    let k = choose|k: int| 0 <= k < w.len() && w[k] == y;
                    if k < p {
                        assert(w0[k] == y);
                    } else if k > p {
                        assert(w0[k - 1] == y);
                    }
                }
                if has_id(w0, y) {
                    let q = choose|q: int| 0 <= q < w0.len() && w0[q] == y;
                    if q < p {
                        assert(w[q] == y);
                    } else {
                        assert(w[q + 1] == y);
                    }
                }
                if y == x@ {
                    assert(w[p as int] == y);
                }
            }
        }
    }
}

/// Whether node `j` of `nodes` is a child of `parent`.
pub open spec fn is_child_node(nodes: Seq<WorkNodeView>, j: int, parent: Seq<char>) -> bool {
    0 <= j < nodes.len() && (nodes[j].parent_id matches Some(p) && p@ == parent)
}

/// Whether `ids` is closed under taking children.
pub open spec fn closed_under_children(nodes: Seq<WorkNodeView>, ids: Seq<Seq<char>>) -> bool {
    forall|k: int, j: int| 0 <= k < ids.len() && #[trigger] is_child_node(nodes, j, ids[k]) ==> has_id(ids, nodes[j].id@)
}

/// Whether `ids[k]` is a child of an earlier id.
pub open spec fn child_of_earlier(nodes: Seq<WorkNodeView>, ids: Seq<Seq<char>>, k: int) -> bool {
    exists|p: int, j: int| 0 <= p < k && #[trigger] is_child_node(nodes, j, ids[p]) && nodes[j].id@ == ids[k]
}

/// Whether each id after the first is a child of an earlier one.
pub open spec fn descends(nodes: Seq<WorkNodeView>, ids: Seq<Seq<char>>) -> bool {
    forall|k: int| 1 <= k < ids.len() ==> #[trigger] child_of_earlier(nodes, ids, k)
}

impl GraphSnapshot {
    /// The node itself and everything it spawned, down the `parent_id` column: the
    /// smallest set of ids holding `node_id` and closed under children, each id once.
    pub fn subtree<'a>(&'a self, node_id: &'a str) -> (r: Vec<&'a str>)
        ensures
            r@.len() >= 1,
            str_views(r@)[0] == node_id@,
            distinct_ids(str_views(r@)),
            descends(self.nodes@, str_views(r@)),
            closed_under_children(self.nodes@, str_views(r@)),
    {
        let mut subtree: Vec<&str> = Vec::new();
        subtree.push(node_id);
        let mut frontier: Vec<&str> = Vec::new();
        frontier.push(node_id);
        let mut marks: Vec<bool> = Vec::new();
        let mut m: usize = 0;
        while m < self.nodes.len()
            invariant
                m <= self.nodes@.len(),
                marks@.len() == m,
                forall|j: int| 0 <= j < m ==> !marks@[j],
            decreases self.nodes@.len() - m,
        {
            marks.push(false);
            m = m + 1;
        }
        proof {
            assert(str_views(subtree@) =~= seq![node_id@]);
            assert(str_views(frontier@) =~= seq![node_id@]);
        }
        while frontier.len() > 0
            invariant
                subtree@.len() >= 1,
                str_views(subtree@)[0] == node_id@,
                distinct_ids(str_views(subtree@)),
                descends(self.nodes@, str_views(subtree@)),
                marks@.len() == self.nodes@.len(),
                forall|j: int| 0 <= j < marks@.len() && #[trigger] marks@[j] ==> has_id(str_views(subtree@), self.nodes@[j].id@),
                forall|f: int| 0 <= f < frontier@.len() ==> has_id(str_views(subtree@), #[trigger] str_views(frontier@)[f]),
                forall|k: int, j: int| 0 <= k < subtree@.len() && #[trigger] is_child_node(self.nodes@, j, str_views(subtree@)[k])
                    ==> has_id(str_views(frontier@), str_views(subtree@)[k]) || has_id(str_views(subtree@), self.nodes@[j].id@),
            decreases unmarked(marks@), frontier@.len(),
        {
            let ghost m0 = unmarked(marks@);
            let ghost f0 = frontier@.len();
            let ghost sub0 = str_views(subtree@);
            let ghost front0 = str_views(frontier@);
            let current = match frontier.pop() {
                Some(c) => c,
                None => node_id,
            };
            proof {
                assert(front0 == str_views(frontier@).push(current@));
                assert(front0[f0 - 1] == current@);
                assert(has_id(sub0, current@));
                assert forall|f: int| 0 <= f < frontier@.len() implies has_id(str_views(subtree@), #[trigger] str_views(
                    frontier@,
                )[f]) by {
                    assert(str_views(frontier@)[f] == front0[f]);
                }
            }
            let mut j: usize = 0;
            while j < self.nodes.len()
                invariant
                    j <= self.nodes@.len(),
                    subtree@.len() >= 1,
                    str_views(subtree@)[0] == node_id@,
                    distinct_ids(str_views(subtree@)),
                    descends(self.nodes@, str_views(subtree@)),
                    has_id(str_views(subtree@), current@),
                    marks@.len() == self.nodes@.len(),
                    forall|q: int| 0 <= q < marks@.len() && #[trigger] marks@[q] ==> has_id(str_views(subtree@), self.nodes@[q].id@),
                    forall|f: int| 0 <= f < frontier@.len() ==> has_id(str_views(subtree@), #[trigger] str_views(frontier@)[f]),
                    sub0.len() <= subtree@.len(),
                    forall|k: int| 0 <= k < sub0.len() ==> str_views(subtree@)[k] == sub0[k],
                    f0 >= 1,
                    front0.len() == f0,
                    frontier@.len() >= f0 - 1,
                    forall|f: int| 0 <= f < f0 - 1 ==> str_views(frontier@)[f] == front0[f],
                    forall|t: int| f0 - 1 <= t < frontier@.len() ==> has_id(str_views(subtree@), #[trigger] str_views(frontier@)[t]),
                    forall|k: int| sub0.len() <= k < subtree@.len() ==> has_id(str_views(frontier@), #[trigger] str_views(subtree@)[k]),
                    forall|q: int| 0 <= q < j && #[trigger] is_child_node(self.nodes@, q, current@) ==> has_id(
                        str_views(subtree@),
                        self.nodes@[q].id@,
                    ),
                    unmarked(marks@) <= m0,
                    unmarked(marks@) == m0 ==> frontier@.len() == f0 - 1,
                decreases self.nodes@.len() - j,
            {
                let node = &self.nodes[j];
                let is_child = match &node.parent_id {
                    Some(p) => str_eq(p.as_str(), current),
                    None => false,
                };
                if is_child {
                    let child = node.id.as_str();
                    if !contains_str(&subtree, child) {
                        let ghost sub_before = str_views(subtree@);
                        let ghost front_before = str_views(frontier@);
                        proof {
                            if marks@[j as int] {
                                assert(has_id(sub_before, self.nodes@[j as int].id@));
                            }
                            lemma_mark(marks@, j as int);
                            let c = choose|k: int| 0 <= k < sub_before.len() && sub_before[k] == current@;
                            assert(is_child_node(self.nodes@, j as int, sub_before[c]));
                        }
                        subtree.push(child);
                        frontier.push(child);
                        marks.set(j, true);
                        proof {
                            let sv = str_views(subtree@);
                            let fv = str_views(frontier@);
                            assert(sv =~= sub_before.push(child@));
                            assert(fv =~= front_before.push(child@));
                            assert(has_id(sv, child@)) by {
                                assert(sv[sv.len() - 1] == child@);
                            }
                            assert(has_id(sv, current@)) by {
                                let c = choose|c: int| 0 <= c < sub_before.len() && sub_before[c] == current@;
                                assert(sv[c] == sub_before[c]);
                            }
                            assert forall|k: int| 1 <= k < sv.len() implies #[trigger] child_of_earlier(self.nodes@, sv, k) by {
                                if k == sv.len() - 1 {
                                    let c = choose|c: int| 0 <= c < sub_before.len() && sub_before[c] == current@;
                                    assert(is_child_node(self.nodes@, j as int, sv[c]));
                                } else {
                                    assert(sv[k] == sub_before[k]);
                                    assert(child_of_earlier(self.nodes@, sub_before, k));
                                    let (p, q) = choose|p: int, q: int| 0 <= p < k && #[trigger] is_child_node(
                                        self.nodes@,
                                        q,
                                        sub_before[p],
                                    ) && self.nodes@[q].id@ == sub_before[k];
                                    assert(sv[p] == sub_before[p]);
                                    assert(is_child_node(self.nodes@, q, sv[p]));
                                }
                            }
                            assert forall|q: int| 0 <= q < marks@.len() && #[trigger] marks@[q] implies has_id(
                                sv,
                                self.nodes@[q].id@,
                            ) by {
                                if q != j {
                                    let k = choose|k: int| 0 <= k < sub_before.len() && sub_before[k] == self.nodes@[q].id@;
                                    assert(sv[k] == sub_before[k]);
                                }
                            }
                            assert forall|f: int| 0 <= f < fv.len() implies has_id(sv, #[trigger] fv[f]) by {
                                if f < fv.len() - 1 {
                                    assert(fv[f] == front_before[f]);
                                    let k = choose|k: int| 0 <= k < sub_before.len() && sub_before[k] == front_before[f];
                                    assert(sv[k] == sub_before[k]);
                                }
                            }
                            assert forall|q: int| 0 <= q < j + 1 && #[trigger] is_child_node(self.nodes@, q, current@)
                                implies has_id(sv, self.nodes@[q].id@) by {
                                if q < j {
                                    let k = choose|k: int| 0 <= k < sub_before.len() && sub_before[k] == self.nodes@[q].id@;
                                    assert(sv[k] == sub_before[k]);
                                }
                            }
                            assert forall|k: int| sub0.len() <= k < sv.len() implies has_id(fv, #[trigger] sv[k]) by {
                                if k == sv.len() - 1 {
                                    assert(fv[fv.len() - 1] == child@);
                                } else {
                                    assert(sv[k] == sub_before[k]);
                                    assert(has_id(front_before, sub_before[k]));
                                    let t = choose|t: int| 0 <= t < front_before.len() && front_before[t] == sub_before[k];
                                    assert(fv[t] == front_before[t]);
                                }
                            }
                            assert forall|t: int| f0 - 1 <= t < fv.len() implies has_id(sv, #[trigger] fv[t]) by {
                                if t < fv.len() - 1 {
                                    assert(fv[t] == front_before[t]);
                                    let k = choose|k: int| 0 <= k < sub_before.len() && sub_before[k] == front_before[t];
                                    assert(sv[k] == sub_before[k]);
                                }
                            }
                            assert forall|f: int| 0 <= f < f0 - 1 implies fv[f] == front0[f] by {
                                assert(fv[f] == front_before[f]);
                            }
                        }
                    } else {
                        proof {
                            assert forall|q: int| 0 <= q < j + 1 && #[trigger] is_child_node(self.nodes@, q, current@)
                                implies has_id(str_views(subtree@), self.nodes@[q].id@) by {
                            }
                        }
                    }
                }
                j = j + 1;
            }
            proof {
                let sv = str_views(subtree@);
                let fv = str_views(frontier@);
                assert forall|f: int| 0 <= f < fv.len() implies has_id(sv, #[trigger] fv[f]) by {
                }
                assert forall|k: int, q: int| 0 <= k < sv.len() && #[trigger] is_child_node(self.nodes@, q, sv[k]) implies
                    has_id(fv, sv[k]) || has_id(sv, self.nodes@[q].id@) by {
                    if k < sub0.len() {
                        assert(sv[k] == sub0[k]);
                        if sv[k] == current@ {
                        } else if has_id(front0, sub0[k]) {
                            let t = choose|t: int| 0 <= t < front0.len() && front0[t] == sub0[k];
                            if t < f0 - 1 {
                                assert(fv[t] == front0[t]);
                            } else {
                                assert(front0[t] == current@);
                            }
                        } else {
                            assert(is_child_node(self.nodes@, q, sub0[k]));
                            let kk = choose|kk: int| 0 <= kk < sub0.len() && sub0[kk] == self.nodes@[q].id@;
                            assert(sv[kk] == sub0[kk]);
                        }
                    }
                }
            }
        }
        proof {
            let sv = str_views(subtree@);
            assert forall|k: int, q: int| 0 <= k < sv.len() && #[trigger] is_child_node(self.nodes@, q, sv[k]) implies
                has_id(sv, self.nodes@[q].id@) by {
                assert(!has_id(str_views(frontier@), sv[k]));
            }
        }
        subtree
    }
}

/// A copy of `s` equal to it.
pub(crate) fn copy_string(s: &String) -> (c: String)
    ensures
        c == *s,
{
    s.clone()
}

/// A copy of a run reference equal to it.
pub(crate) fn copy_run(r: &RunRef) -> (c: RunRef)
    ensures
        c == *r,
{
    RunRef { run_id: copy_string(&r.run_id), generation: r.generation, status: copy_string(&r.status) }
}

/// A copy of a work node equal to it.
pub(crate) fn copy_node(n: &WorkNodeView) -> (c: WorkNodeView)
    ensures
        c == *n,
{
    WorkNodeView {
        id: copy_string(&n.id),
        kind: copy_string(&n.kind),
        status: copy_string(&n.status),
        parent_id: match &n.parent_id {
            Some(p) => Some(copy_string(p)),
            None => None,
        },
        priority: n.priority,
        revision: n.revision,
        run: match &n.run {
            Some(r) => Some(copy_run(r)),
            None => None,
        },
    }
}

/// A copy of a dependency edge equal to it.
pub(crate) fn copy_edge(e: &DependencyEdge) -> (c: DependencyEdge)
    ensures
        c == *e,
{
    DependencyEdge {
        from_node_id: copy_string(&e.from_node_id),
        to_node_id: copy_string(&e.to_node_id),
        kind: copy_string(&e.kind),
    }
}

/// A requested change of one node's status, compare-and-set on its revision.
#[derive(Debug, Clone, PartialEq, Eq)]
pub struct NodeTransition {
    /// Node to change.
    pub node_id: String,
    /// The revision the change was computed against.
    pub expected_revision: u64,
    /// New status.
    pub to: String,
    /// Why.
    pub reason: String,
}

/// A batch of node transitions applied as one graph transaction.
#[derive(Debug, Clone, PartialEq, Eq)]
pub struct ReleaseBatch {
    /// Workspace.
    pub workspace_id: String,
    /// The graph revision the batch was computed against.
    pub base_revision: u64,
    /// The transitions.
    pub transitions: Vec<NodeTransition>,
}

/// What applying a batch did.
#[derive(Debug, Clone, PartialEq, Eq)]
pub struct ReleaseOutcome {
    /// The graph revision after the batch.
    pub revision: u64,
    /// How many transitions were applied.
    pub applied: usize,
}

/// The work-graph port when none is wired: every call fails closed naming the owner.
#[derive(Debug, Clone, Copy, Default)]
pub struct UnavailableWorkGraph;

impl UnavailableWorkGraph {
    /// The refusal every call of an unwired graph port returns.
    pub fn refusal(&self) -> (r: OrchestrationError)
        ensures
            r matches OrchestrationError::PortUnavailable { owner, detail } && owner@ == "CORE-005"@ && detail@
                == "the WorkGraph port is not wired"@,
    {
        OrchestrationError::PortUnavailable {
            owner: crate::text::owned(GRAPH_TRANSACTION_OWNER),
            detail: crate::text::owned("the WorkGraph port is not wired"),
        }
    }
}

} // verus!
