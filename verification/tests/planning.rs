use quansio_server::runtime::planning::compile::{
    compile, has_contract, normalize_needs, ContractSource, PlanGraphSnapshot, PlanProposerProjection, SnapshotEdge,
    SnapshotNode, DEFAULT_MAX_PLAN_NODES,
};
use quansio_server::runtime::planning::service::compiled_outcome;
use quansio_server::runtime::planning::structure::cycle_arc;
use quansio_server::runtime::planning::wire::{
    validate_raw, EdgeKind, NodeKind, NodeStatus, RawEdge, RawNode, RawPlanProposal,
};
use quansio_server::runtime::planning::{effective_plan_limit, PlanError};

fn raw_node(id: &str, contract: &str, parent: Option<&str>) -> RawNode {
    RawNode {
        id: id.to_string(),
        kind: "task".to_string(),
        title: format!("title of {id}"),
        description: None,
        parent_id: parent.map(str::to_string),
        status: None,
        completion_contract: contract.to_string(),
        capability_needs: "{}".to_string(),
        priority: Some(1),
        budget_id: None,
        thread_id: None,
    }
}

fn raw_edge(id: &str, from: &str, to: &str) -> RawEdge {
    RawEdge { id: id.to_string(), from_node_id: from.to_string(), to_node_id: to.to_string(), kind: "depends_on".to_string() }
}

fn proposal(nodes: Vec<RawNode>, edges: Vec<RawEdge>, base_revision: u64) -> RawPlanProposal {
    RawPlanProposal {
        proposal_id: "pp_1".to_string(),
        run_id: Some("run_1".to_string()),
        workspace_id: "ws_1".to_string(),
        base_revision,
        nodes_add: nodes,
        nodes_update: Vec::new(),
        edges_add: edges,
        edges_remove: Vec::new(),
        rationale: Some("because".to_string()),
        capability_needs: "{}".to_string(),
    }
}

fn existing(id: &str, contract: &str) -> SnapshotNode {
    SnapshotNode { id: id.to_string(), parent_id: None, revision: 1, completion_contract: contract.to_string() }
}

fn snapshot(nodes: Vec<SnapshotNode>, edges: Vec<SnapshotEdge>) -> PlanGraphSnapshot {
    PlanGraphSnapshot { workspace_id: "ws_1".to_string(), revision: 4, nodes, edges }
}

fn proposer() -> PlanProposerProjection {
    PlanProposerProjection { agent_thread_id: None, grants: "{}".to_string(), created_by: "usr_1".to_string() }
}

const CONTRACT: &str = "{\"done_when\":\"tests pass\"}";

#[test]
fn a_well_formed_plan_compiles_into_its_mutations() {
    let snap = snapshot(vec![existing("wn_a", CONTRACT), existing("wn_b", CONTRACT)], Vec::new());
    let raw = proposal(
        vec![raw_node("n1", CONTRACT, None), raw_node("n2", "", Some("wn_a"))],
        vec![raw_edge("e1", "wn_b", "wn_a")],
        4,
    );
    let plan = compile(&raw, &snap, &proposer(), DEFAULT_MAX_PLAN_NODES, Ok(())).expect("compiles");
    assert_eq!(plan.nodes_add.len(), 2);
    assert_eq!(plan.nodes_add[0].contract_source, ContractSource::Own);
    assert_eq!(
        plan.nodes_add[1].contract_source,
        ContractSource::InheritedFrom { parent_id: "wn_a".to_string(), created_in_plan: false }
    );
    assert_eq!(plan.nodes_add[0].kind, NodeKind::Task);
    assert_eq!(plan.nodes_add[0].status, NodeStatus::Draft);
    assert_eq!(plan.edges_add.len(), 1);
    assert_eq!(plan.edges_add[0].kind, EdgeKind::DependsOn);
    assert_eq!(plan.created_by, "usr_1");
    let outcome = compiled_outcome(&plan);
    assert_eq!(outcome.applied, 3);
    assert_eq!(outcome.nodes_added, 2);
    assert_eq!(outcome.mutation_summary.len(), 3);
}

#[test]
fn a_plan_that_closes_a_cycle_is_refused() {
    let snap = snapshot(
        vec![existing("wn_a", CONTRACT), existing("wn_b", CONTRACT)],
        vec![SnapshotEdge {
            id: "we_1".to_string(),
            from_node_id: "wn_a".to_string(),
            to_node_id: "wn_b".to_string(),
            kind: EdgeKind::DependsOn,
            revision: 1,
        }],
    );
    let raw = proposal(Vec::new(), vec![raw_edge("e1", "wn_b", "wn_a")], 4);
    match compile(&raw, &snap, &proposer(), 25, Ok(())) {
        Err(PlanError::Cycle { from, to }) => assert!(
            (from == "wn_a" && to == "wn_b") || (from == "wn_b" && to == "wn_a"),
            "{from} -> {to} is not an arc of the cycle"
        ),
        other => panic!("expected a cycle, got {other:?}"),
    }
}

#[test]
fn a_node_without_any_contract_is_refused() {
    let snap = snapshot(Vec::new(), Vec::new());
    let raw = proposal(vec![raw_node("n1", "{}", None)], Vec::new(), 4);
    assert_eq!(
        compile(&raw, &snap, &proposer(), 25, Ok(())),
        Err(PlanError::MissingCompletionContract { node: "title of n1".to_string() })
    );
}

#[test]
fn plans_over_the_node_bound_empty_or_stale_are_refused_in_order() {
    let snap = snapshot(Vec::new(), Vec::new());
    let two = proposal(vec![raw_node("n1", CONTRACT, None), raw_node("n2", CONTRACT, None)], Vec::new(), 4);
    assert_eq!(compile(&two, &snap, &proposer(), 1, Ok(())), Err(PlanError::Bounds { requested: 2, limit: 1 }));
    let empty = proposal(Vec::new(), Vec::new(), 4);
    assert_eq!(compile(&empty, &snap, &proposer(), 25, Ok(())), Err(PlanError::EmptyPlan));
    let stale = proposal(vec![raw_node("n1", CONTRACT, None)], Vec::new(), 3);
    assert_eq!(
        compile(&stale, &snap, &proposer(), 25, Ok(())),
        Err(PlanError::StaleBaseRevision { expected: 3, current: 4 })
    );
    let widening = Err(PlanError::CapabilityNotNarrowed { need: "net.egress".to_string() });
    assert_eq!(
        compile(&stale, &snap, &proposer(), 25, widening.clone()),
        widening.map(|()| unreachable!()),
        "the capability verdict decides before the revision check"
    );
}

#[test]
fn a_proposal_with_unknown_vocabulary_is_a_schema_error() {
    let mut raw = proposal(vec![raw_node("n1", CONTRACT, None)], Vec::new(), 4);
    raw.nodes_add[0].kind = "epic".to_string();
    assert!(matches!(validate_raw(&raw), Err(PlanError::Schema { .. })));
    let mut blank = proposal(vec![raw_node("n1", CONTRACT, None)], Vec::new(), 4);
    blank.rationale = None;
    assert_eq!(validate_raw(&blank), Err(PlanError::Schema { detail: "rationale is required".to_string() }));
    assert!(validate_raw(&proposal(vec![raw_node("n1", CONTRACT, None)], Vec::new(), 4)).is_ok());
}

#[test]
fn vocabulary_names_round_trip() {
    for kind in NodeKind::ALL {
        assert_eq!(NodeKind::parse(kind.as_str()), Ok(kind));
    }
    for kind in [EdgeKind::DependsOn, EdgeKind::ParentOf, EdgeKind::ProducesArtifact, EdgeKind::VerifiedBy, EdgeKind::BlockedBy] {
        assert_eq!(EdgeKind::parse(kind.as_str()), Ok(kind));
    }
    assert!(EdgeKind::DependsOn.is_acyclic_relation());
    assert!(!EdgeKind::ProducesArtifact.is_acyclic_relation());
}

#[test]
fn contracts_and_needs_are_normalised() {
    assert!(has_contract(CONTRACT));
    assert!(!has_contract("{}"));
    assert!(!has_contract("null"));
    assert!(!has_contract(""));
    assert_eq!(normalize_needs(""), "[]");
    assert_eq!(normalize_needs("null"), "[]");
    assert_eq!(effective_plan_limit(None), DEFAULT_MAX_PLAN_NODES);
    assert_eq!(effective_plan_limit(Some(5)), 5);
    assert_eq!(effective_plan_limit(Some(-1)), DEFAULT_MAX_PLAN_NODES);
}

#[test]
fn a_cycle_is_found_among_arcs() {
    assert_eq!(cycle_arc(&vec![("a", "b"), ("b", "c")]), None);
    assert_eq!(cycle_arc(&vec![("x", "a"), ("a", "b"), ("b", "a")]).map(|j| j > 0), Some(true));
    assert!(cycle_arc(&vec![("a", "b"), ("b", "c"), ("c", "a")]).is_some());
    assert!(cycle_arc(&vec![("a", "a")]).is_some());
}
