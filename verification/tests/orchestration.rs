use quansio_server::runtime::orchestration::cancel::{cancel_plan, CancelRequest};
use quansio_server::runtime::orchestration::capacity::{CapacityGate, CapacityRefusal};
use quansio_server::runtime::orchestration::graph::{DependencyEdge, GraphSnapshot, RunRef, WorkNodeView};
use quansio_server::runtime::orchestration::queue::{
    ensure_acyclic, join_plan, node_ids, project, release_plan, select, DeferralReason,
};
use quansio_server::runtime::orchestration::service::{
    applied_outcome, converged_outcome, plan_tick, record_run_ids, retry_after_conflict, settled_after_race, tick_report,
};
use quansio_server::runtime::orchestration::{
    is_active_run_status, is_terminal_node_status, is_terminal_run_status,
    OrchestrationError, BLOCKED, CANCELLED, DONE, DRAFT, FAILED, IN_PROGRESS, READY, WAITING,
};

fn node(id: &str, status: &str) -> WorkNodeView {
    WorkNodeView {
        id: id.to_string(),
        kind: "task".to_string(),
        status: status.to_string(),
        parent_id: None,
        priority: 1,
        revision: 1,
        run: None,
    }
}

fn node_with_run(id: &str, status: &str, run_status: &str) -> WorkNodeView {
    let mut view = node(id, status);
    view.run = Some(RunRef { run_id: format!("run_{id}"), generation: 1, status: run_status.to_string() });
    view
}

fn child_node(id: &str, status: &str, parent: Option<&str>, run_status: Option<&str>) -> WorkNodeView {
    WorkNodeView {
        id: id.to_string(),
        kind: "task".to_string(),
        status: status.to_string(),
        parent_id: parent.map(str::to_string),
        priority: 1,
        revision: 3,
        run: run_status.map(|status| RunRef {
            run_id: format!("run_{id}"),
            generation: 1,
            status: status.to_string(),
        }),
    }
}

fn depends_on(from: &str, to: &str) -> DependencyEdge {
    DependencyEdge { from_node_id: from.to_string(), to_node_id: to.to_string(), kind: "depends_on".to_string() }
}

fn snapshot(nodes: Vec<WorkNodeView>, edges: Vec<DependencyEdge>) -> GraphSnapshot {
    GraphSnapshot { workspace_id: "ws_test".to_string(), revision: 7, nodes, edges }
}

fn request(node_id: &str) -> CancelRequest {
    CancelRequest {
        workspace_id: "ws_test".to_string(),
        node_id: node_id.to_string(),
        reason: "operator cancelled".to_string(),
    }
}

#[test]
fn a_dependent_never_starts_before_its_prerequisite() {
    let graph = snapshot(
        vec![node("wn_a", DONE), node_with_run("wn_b", READY, "QUEUED")],
        vec![depends_on("wn_b", "wn_a")],
    );
    let selection = select(&graph, 4);
    assert_eq!(selection.dispatch.len(), 1, "the prerequisite is done");

    let graph = snapshot(
        vec![node("wn_a", IN_PROGRESS), node_with_run("wn_b", READY, "QUEUED")],
        vec![depends_on("wn_b", "wn_a")],
    );
    let selection = select(&graph, 4);
    assert!(selection.is_empty(), "a queued run is not enough to start");
    assert_eq!(selection.blocked, vec!["wn_b".to_string()]);
}

#[test]
fn release_makes_satisfied_work_ready_and_blocks_work_that_can_never_run() {
    let graph = snapshot(
        vec![
            node("wn_a", DONE),
            node("wn_b", DRAFT),
            node("wn_c", DRAFT),
            node("wn_d", CANCELLED),
            node("wn_e", BLOCKED),
        ],
        vec![depends_on("wn_b", "wn_a"), depends_on("wn_c", "wn_d"), depends_on("wn_e", "wn_d")],
    );
    let plan = release_plan(&graph);
    let by_node: Vec<(&str, &str)> =
        plan.transitions.iter().map(|transition| (transition.node_id.as_str(), transition.to.as_str())).collect();
    assert!(by_node.contains(&("wn_b", READY)));
    assert!(by_node.contains(&("wn_c", BLOCKED)));
    assert!(
        !by_node.iter().any(|(node, _)| *node == "wn_e"),
        "an already blocked node with a cancelled prerequisite stays blocked"
    );
}

#[test]
fn release_is_idempotent_over_the_same_snapshot() {
    let graph = snapshot(vec![node("wn_a", DONE), node("wn_b", DRAFT)], vec![depends_on("wn_b", "wn_a")]);
    let first = release_plan(&graph);
    assert_eq!(first.transitions.len(), 1);
    let projected = project(&graph, &first.transitions);
    assert!(release_plan(&projected).is_empty(), "a released graph releases nothing more");
}

#[test]
fn projection_moves_only_the_named_nodes_and_bumps_their_revision() {
    let graph = snapshot(vec![node("wn_a", DONE), node("wn_b", DRAFT)], vec![depends_on("wn_b", "wn_a")]);
    let plan = release_plan(&graph);
    let projected = project(&graph, &plan.transitions);
    assert_eq!(projected.nodes[0].status, DONE);
    assert_eq!(projected.nodes[0].revision, 1);
    assert_eq!(projected.nodes[1].status, READY);
    assert_eq!(projected.nodes[1].revision, 2);
    assert_eq!(projected.edges, graph.edges);
}

#[test]
fn joins_release_once_and_block_on_a_broken_child() {
    let mut parent = node("wn_p", WAITING);
    parent.kind = "objective".to_string();
    let mut child_a = node("wn_c1", DONE);
    child_a.parent_id = Some("wn_p".to_string());
    let mut child_b = node("wn_c2", DONE);
    child_b.parent_id = Some("wn_p".to_string());
    let graph = snapshot(vec![parent.clone(), child_a.clone(), child_b], vec![]);
    let plan = join_plan(&graph);
    assert_eq!(plan.transitions.len(), 1);
    assert_eq!(plan.transitions[0].to, IN_PROGRESS);

    let mut failed = node("wn_c2", FAILED);
    failed.parent_id = Some("wn_p".to_string());
    let graph = snapshot(vec![parent, child_a, failed], vec![]);
    let plan = join_plan(&graph);
    assert_eq!(plan.transitions.len(), 1);
    assert_eq!(plan.transitions[0].to, BLOCKED);
}

#[test]
fn ordering_is_priority_then_id() {
    let mut high = node_with_run("wn_z", READY, "QUEUED");
    high.priority = 3;
    let mut low = node_with_run("wn_a", READY, "QUEUED");
    low.priority = 0;
    let mut mid = node_with_run("wn_b", READY, "QUEUED");
    mid.priority = 1;
    let graph = snapshot(vec![low, mid, high], vec![]);
    let selection = select(&graph, 8);
    let order: Vec<&str> = selection.dispatch.iter().map(|candidate| candidate.node_id.as_str()).collect();
    assert_eq!(order, vec!["wn_z", "wn_b", "wn_a"]);
}

#[test]
fn capacity_defers_the_tail_deterministically() {
    let graph = snapshot(
        vec![
            node_with_run("wn_a", READY, "QUEUED"),
            node_with_run("wn_b", READY, "QUEUED"),
            node_with_run("wn_c", READY, "QUEUED"),
        ],
        vec![],
    );
    let selection = select(&graph, 2);
    assert_eq!(selection.dispatch.len(), 2);
    assert_eq!(selection.deferred.len(), 1);
    assert_eq!(selection.deferred[0].node_id, "wn_c");
    assert_eq!(selection.deferred[0].reason, DeferralReason::Capacity);
}

#[test]
fn parked_runs_are_waiting_not_dispatchable() {
    let graph = snapshot(vec![node_with_run("wn_a", IN_PROGRESS, "WAITING_APPROVAL")], vec![]);
    let selection = select(&graph, 4);
    assert!(selection.is_empty());
    assert_eq!(selection.waiting, vec!["wn_a".to_string()]);
    assert_eq!(graph.active_slots(), 0, "a parked run holds no slot");
}

#[test]
fn a_cycle_is_refused() {
    let graph = snapshot(
        vec![node("wn_a", READY), node("wn_b", READY)],
        vec![depends_on("wn_a", "wn_b"), depends_on("wn_b", "wn_a")],
    );
    assert!(matches!(ensure_acyclic(&graph), Err(OrchestrationError::DependencyCycle { .. })));
}

#[test]
fn a_refused_cycle_names_a_node_on_the_cycle() {
    let graph = snapshot(
        vec![node("wn_c", READY), node("wn_a", READY), node("wn_b", READY)],
        vec![depends_on("wn_c", "wn_a"), depends_on("wn_a", "wn_b"), depends_on("wn_b", "wn_a")],
    );
    match ensure_acyclic(&graph) {
        Err(OrchestrationError::DependencyCycle { node_id }) => {
            assert!(node_id == "wn_a" || node_id == "wn_b", "{node_id} is not on the cycle")
        },
        other => panic!("expected a cycle, got {other:?}"),
    }
}

#[test]
fn a_chain_of_dependencies_is_accepted() {
    let graph = snapshot(
        vec![node("wn_a", READY), node("wn_b", READY), node("wn_c", READY)],
        vec![depends_on("wn_b", "wn_a"), depends_on("wn_c", "wn_b"), depends_on("wn_c", "wn_a")],
    );
    assert!(ensure_acyclic(&graph).is_ok());
}

#[test]
fn node_ids_are_listed_once_in_ascending_order() {
    let graph = snapshot(vec![node("wn_c", READY), node("wn_a", READY), node("wn_b", READY)], vec![]);
    assert_eq!(node_ids(&graph), vec!["wn_a", "wn_b", "wn_c"]);
}

fn gate_node(id: &str, run_status: &str) -> WorkNodeView {
    node_with_run(id, IN_PROGRESS, run_status)
}

#[test]
fn slots_are_counted_from_durable_run_state() {
    let graph = snapshot(
        vec![
            gate_node("wn_a", "RUNNING"),
            gate_node("wn_b", "WAITING_QUESTION"),
            gate_node("wn_c", "SUCCEEDED"),
            gate_node("wn_d", "CANCELLED"),
        ],
        vec![],
    );
    let gate = CapacityGate::new(4);
    assert_eq!(graph.active_slots(), 1, "only the running run holds a slot");
    assert_eq!(gate.headroom(&graph), 3);
}

#[test]
fn a_saturated_gate_refuses_with_a_typed_error() {
    let graph = snapshot(vec![gate_node("wn_a", "RUNNING"), gate_node("wn_b", "RUNNING")], vec![]);
    let gate = CapacityGate::new(2);
    let error = gate.admit_slots(&graph).expect_err("saturated");
    assert_eq!(error.code(), "BUDGET_EXHAUSTED");
    assert!(matches!(error, OrchestrationError::CapacitySaturated { in_flight: 2, limit: 2 }));
}

#[test]
fn a_zero_limit_freezes_rather_than_unbounding() {
    let graph = snapshot(Vec::new(), vec![]);
    let gate = CapacityGate::new(0);
    assert_eq!(gate.headroom(&graph), 0);
    assert!(gate.admit_slots(&graph).is_ok(), "a frozen gate reports zero slots without a saturation error");
    assert!(!gate.admits(&graph));
}

#[test]
fn cancellation_covers_the_subtree_its_runs_and_its_dependents() {
    let graph = snapshot(
        vec![
            child_node("wn_root", IN_PROGRESS, None, Some("RUNNING")),
            child_node("wn_child", READY, Some("wn_root"), Some("QUEUED")),
            child_node("wn_grandchild", WAITING, Some("wn_child"), Some("WAITING_CHILD")),
            child_node("wn_dependent", READY, None, Some("QUEUED")),
        ],
        vec![depends_on("wn_dependent", "wn_child")],
    );
    let plan = cancel_plan(&graph, &request("wn_root")).expect("plan");
    let cancelled: Vec<&str> = plan.cancelled_nodes.iter().map(|transition| transition.node_id.as_str()).collect();
    assert_eq!(cancelled, vec!["wn_child", "wn_grandchild", "wn_root"]);
    assert_eq!(plan.runs.len(), 2, "the running run and the parked run are cancelled");
    assert_eq!(plan.unstarted_runs.len(), 1, "the queued run has no cancellation edge and is reported instead");
    assert_eq!(plan.unstarted_runs[0].status, "QUEUED");
    let blocked: Vec<&str> = plan.blocked_dependents.iter().map(|transition| transition.node_id.as_str()).collect();
    assert_eq!(blocked, vec!["wn_dependent"]);
}

#[test]
fn a_queued_run_is_reported_as_unstarted_not_cancelled() {
    let graph = snapshot(vec![child_node("wn_root", READY, None, Some("QUEUED"))], vec![]);
    let plan = cancel_plan(&graph, &request("wn_root")).expect("plan");
    assert!(plan.runs.is_empty(), "a queued run cannot be cancelled");
    assert_eq!(plan.unstarted_runs.len(), 1);
    assert_eq!(plan.unstarted_runs[0].status, "QUEUED");
    assert_eq!(plan.cancelled_nodes.len(), 1, "the node is still cancelled");
}

#[test]
fn an_already_cancelled_subtree_plans_nothing() {
    let graph = snapshot(
        vec![
            child_node("wn_root", CANCELLED, None, Some("CANCELLED")),
            child_node("wn_child", CANCELLED, Some("wn_root"), Some("CANCELLED")),
        ],
        vec![],
    );
    let plan = cancel_plan(&graph, &request("wn_root")).expect("plan");
    assert!(plan.is_empty(), "a second cancellation is a no-op, never a second transition");
}

#[test]
fn a_settled_effect_inside_the_subtree_is_not_retouched() {
    let graph = snapshot(
        vec![
            child_node("wn_root", IN_PROGRESS, None, Some("RUNNING")),
            child_node("wn_done_child", DONE, Some("wn_root"), Some("SUCCEEDED")),
        ],
        vec![],
    );
    let plan = cancel_plan(&graph, &request("wn_root")).expect("plan");
    assert_eq!(plan.runs.len(), 1, "only the live run is cancelled");
    assert_eq!(plan.runs[0].status, "RUNNING");
    assert!(plan.unstarted_runs.is_empty());
    let cancelled: Vec<&str> = plan.cancelled_nodes.iter().map(|transition| transition.node_id.as_str()).collect();
    assert_eq!(cancelled, vec!["wn_root"], "a done child is left alone");
}

#[test]
fn cancelling_an_unknown_node_is_not_found() {
    let graph = snapshot(vec![node("wn_a", READY)], vec![]);
    let error = cancel_plan(&graph, &request("wn_missing")).expect_err("missing");
    assert_eq!(error.code(), "NOT_FOUND");
    assert!(matches!(error, OrchestrationError::NotFound { .. }));
}

#[test]
fn cancelling_twice_plans_nothing_the_second_time() {
    let graph = snapshot(
        vec![
            child_node("wn_root", IN_PROGRESS, None, Some("RUNNING")),
            child_node("wn_child", READY, Some("wn_root"), None),
        ],
        vec![],
    );
    let first = cancel_plan(&graph, &request("wn_root")).expect("plan");
    assert!(!first.is_empty());
    let after = project(&graph, &first.transitions());
    let mut cancelled_runs = after.clone();
    for node in cancelled_runs.nodes.iter_mut() {
        if let Some(run) = node.run.as_mut() {
            run.status = "CANCELLED".to_string();
        }
    }
    let second = cancel_plan(&cancelled_runs, &request("wn_root")).expect("plan");
    assert!(second.is_empty());
}

#[test]
fn a_tick_releases_then_selects_against_the_graph_it_leaves_behind() {
    let graph = snapshot(
        vec![
            node("wn_a", DONE),
            node_with_run("wn_b", DRAFT, "QUEUED"),
            node_with_run("wn_c", READY, "QUEUED"),
            node_with_run("wn_d", READY, "QUEUED"),
        ],
        vec![depends_on("wn_b", "wn_a")],
    );
    let gate = CapacityGate::new(1);
    let plan = plan_tick(&graph, &gate).expect("acyclic");
    assert_eq!(plan.release.transitions.len(), 1);
    assert_eq!(plan.transitions[0].node_id, "wn_b");
    assert_eq!(plan.projected.nodes[1].status, READY);
    assert_eq!(plan.headroom, 1);
    let dispatched: Vec<&str> = plan.selection.dispatch.iter().map(|c| c.node_id.as_str()).collect();
    assert_eq!(dispatched, vec!["wn_b"]);
    let report = tick_report(&plan, &gate, 8, 1, 0, 0, 0);
    assert_eq!(report.workspace_id, "ws_test");
    assert_eq!((report.graph_revision, report.released, report.joined, report.dispatched), (8, 1, 0, 1));
    assert_eq!(report.deferred, vec!["wn_c".to_string(), "wn_d".to_string()]);
    assert_eq!(report.capacity, Some(CapacityRefusal { in_flight: 0, limit: 1 }));
    assert!(!report.is_quiet());

    let again = plan_tick(&plan.projected, &gate).expect("acyclic");
    assert!(again.transitions.is_empty(), "a second tick over the same graph releases nothing");
    let quiet = tick_report(&again, &gate, 8, 0, 0, 0, 0);
    assert!(quiet.is_quiet());
    assert_eq!(quiet.capacity, Some(CapacityRefusal { in_flight: 0, limit: 1 }));
    let roomy = CapacityGate::new(8);
    let open = plan_tick(&plan.projected, &roomy).expect("acyclic");
    assert_eq!(open.selection.dispatch.len(), 3);
    assert_eq!(tick_report(&open, &roomy, 8, 3, 0, 0, 0).capacity, None);
}

#[test]
fn a_tick_refuses_a_cyclic_graph() {
    let graph = snapshot(
        vec![node("wn_a", READY), node("wn_b", READY)],
        vec![depends_on("wn_a", "wn_b"), depends_on("wn_b", "wn_a")],
    );
    assert!(matches!(plan_tick(&graph, &CapacityGate::new(4)), Err(OrchestrationError::DependencyCycle { .. })));
}

#[test]
fn run_ids_accumulate_once_each_in_first_seen_order() {
    let mut acc = vec!["run_a".to_string()];
    record_run_ids(&mut acc, &vec!["run_b".to_string(), "run_a".to_string(), "run_b".to_string()]);
    assert_eq!(acc, vec!["run_a".to_string(), "run_b".to_string()]);
}

#[test]
fn a_converged_cancellation_reports_what_earlier_attempts_stopped() {
    let nothing = converged_outcome(Vec::new(), vec!["run_x".to_string()]);
    assert!(nothing.already_cancelled);
    assert!(nothing.runs_cancelled.is_empty() && nothing.runs_already_cancelled.is_empty());
    let earlier = converged_outcome(vec!["run_a".to_string()], vec!["run_b".to_string()]);
    assert!(earlier.already_cancelled);
    assert_eq!(earlier.runs_cancelled, vec!["run_a".to_string()]);
    assert_eq!(earlier.runs_already_cancelled, vec!["run_b".to_string()]);
}

#[test]
fn an_applied_cancellation_reports_prior_statuses_and_leftover_runs() {
    let graph = snapshot(
        vec![
            child_node("wn_root", IN_PROGRESS, None, Some("RUNNING")),
            child_node("wn_child", READY, Some("wn_root"), Some("QUEUED")),
            child_node("wn_grandchild", WAITING, Some("wn_child"), Some("WAITING_CHILD")),
            child_node("wn_dependent", READY, None, Some("QUEUED")),
        ],
        vec![depends_on("wn_dependent", "wn_child")],
    );
    let plan = cancel_plan(&graph, &request("wn_root")).expect("plan");
    let outcome = applied_outcome(
        &graph,
        &plan,
        &vec!["run_wn_root".to_string()],
        &vec!["run_wn_root".to_string(), "run_wn_grandchild".to_string()],
    );
    assert!(!outcome.already_cancelled);
    let prior: Vec<(&str, &str)> =
        outcome.cancelled.iter().map(|c| (c.node_id.as_str(), c.previous_status.as_str())).collect();
    assert_eq!(prior, vec![("wn_child", READY), ("wn_grandchild", WAITING), ("wn_root", IN_PROGRESS)]);
    assert!(outcome.cancelled.iter().all(|c| c.applied));
    assert_eq!(outcome.blocked, vec!["wn_dependent".to_string()]);
    assert_eq!(outcome.runs_cancelled, vec!["run_wn_root".to_string()]);
    assert_eq!(outcome.runs_already_cancelled, vec!["run_wn_grandchild".to_string()]);
    assert_eq!(outcome.runs_left_unstarted, vec!["run_wn_child".to_string()]);
}

#[test]
fn graph_queries_follow_edges_and_the_parent_column() {
    let graph = snapshot(
        vec![
            child_node("wn_root", IN_PROGRESS, None, Some("RUNNING")),
            child_node("wn_child", DONE, Some("wn_root"), None),
            child_node("wn_leaf", READY, Some("wn_child"), Some("WAITING_APPROVAL")),
            child_node("wn_other", READY, None, None),
        ],
        vec![depends_on("wn_other", "wn_child"), depends_on("wn_other", "wn_root"), depends_on("wn_leaf", "wn_gone")],
    );
    assert_eq!(graph.prerequisites("wn_other"), vec!["wn_child", "wn_root"]);
    assert_eq!(graph.dependents("wn_child"), vec!["wn_other"]);
    assert_eq!(graph.children("wn_root"), vec!["wn_child"]);
    assert_eq!(
        graph.unsatisfied_prerequisite("wn_other"),
        Some(("wn_root".to_string(), IN_PROGRESS.to_string()))
    );
    assert_eq!(
        graph.unsatisfied_prerequisite("wn_leaf"),
        Some(("wn_gone".to_string(), "missing".to_string()))
    );
    assert!(!graph.prerequisites_satisfied("wn_other"));
    assert!(graph.prerequisites_satisfied("wn_root"));
    let mut subtree = graph.subtree("wn_root");
    assert_eq!(subtree[0], "wn_root");
    subtree.sort();
    assert_eq!(subtree, vec!["wn_child", "wn_leaf", "wn_root"]);
    assert_eq!(graph.subtree("wn_other"), vec!["wn_other"]);
    assert_eq!(graph.node("wn_leaf").map(|n| n.status.as_str()), Some(READY));
    assert!(graph.node("wn_gone").is_none());
}

#[test]
fn run_and_node_status_classes() {
    let running = child_node("wn_a", IN_PROGRESS, None, Some("RUNNING"));
    assert!(running.holds_slot() && !running.is_parked() && !running.is_terminal());
    let parked = child_node("wn_b", WAITING, None, Some("SUSPENDED"));
    assert!(parked.is_parked() && !parked.holds_slot());
    assert!(child_node("wn_c", DONE, None, None).is_terminal());
    assert!(is_terminal_node_status(CANCELLED) && !is_terminal_node_status(WAITING));
    assert!(is_terminal_run_status("BLOCKED_UNRECOVERABLE") && !is_terminal_run_status("RUNNING"));
    assert!(is_active_run_status("RUNNING") && is_active_run_status("VERIFYING"));
    assert!(!is_active_run_status("QUEUED") && !is_active_run_status("WAITING_APPROVAL"));
    assert!(!is_active_run_status("SUSPENDED") && !is_active_run_status("SUCCEEDED"));
    assert_eq!(
        CapacityRefusal { in_flight: 3, limit: 3 }.into_error(),
        OrchestrationError::CapacitySaturated { in_flight: 3, limit: 3 }
    );
}

#[test]
fn a_lost_race_is_retried_only_while_attempts_remain() {
    assert!(retry_after_conflict(0, 3) && retry_after_conflict(1, 3));
    assert!(!retry_after_conflict(2, 3) && !retry_after_conflict(0, 1) && !retry_after_conflict(5, 3));
    let settled = settled_after_race(Vec::new(), vec!["run_b".to_string()]);
    assert!(settled.already_cancelled);
    assert!(settled.runs_cancelled.is_empty());
    assert_eq!(settled.runs_already_cancelled, vec!["run_b".to_string()]);
}

#[test]
fn release_is_idempotent_even_when_an_id_repeats() {
    let graph = snapshot(
        vec![node("wn_x", FAILED), node("wn_x", DRAFT), node("wn_y", DRAFT), node("wn_z", BLOCKED)],
        vec![depends_on("wn_y", "wn_x"), depends_on("wn_z", "wn_x")],
    );
    let first = release_plan(&graph);
    assert!(!first.is_empty());
    let projected = project(&graph, &first.transitions);
    assert!(release_plan(&projected).is_empty(), "a released graph releases nothing more");
}
