use quansio_server::runtime::protocol_state::ProtocolState;
use quansio_server::runtime::recovery::plan::{fence, fence_decision, plan_from, DurableState, FenceDecision, SafeAction};
use quansio_server::runtime::recovery::service::{
    awaits_reconciliation, durable_state, resolution_for, RecoveryResolution,
};
use quansio_server::runtime::recovery::RecoveryError;

fn state(status: &str) -> DurableState {
    DurableState { run_status: status.to_string(), ..DurableState::default() }
}

#[test]
fn the_kill_restart_matrix_decides_the_same_safe_point() {
    for status in ["SUCCEEDED", "FAILED", "CANCELLED", "BLOCKED_UNRECOVERABLE"] {
        assert_eq!(plan_from(&state(status)), SafeAction::Terminal, "{status}");
    }
    for status in ["CREATED", "QUEUED", "RUNNING", "VERIFYING", "SUSPENDED"] {
        assert_eq!(plan_from(&state(status)), SafeAction::Resume, "{status}");
    }
    let mut approval = state("WAITING_APPROVAL");
    approval.pending_approvals = vec!["apr_1".to_string()];
    assert_eq!(
        plan_from(&approval),
        SafeAction::Wait { state: "WAITING_APPROVAL".to_string(), key: "apr_1".to_string() }
    );
    let mut question = state("WAITING_QUESTION");
    question.open_questions = vec!["q_1".to_string()];
    assert_eq!(
        plan_from(&question),
        SafeAction::Wait { state: "WAITING_QUESTION".to_string(), key: "q_1".to_string() }
    );
    let mut child = state("WAITING_CHILD");
    child.child_agent_threads = vec!["ath_1".to_string()];
    assert_eq!(
        plan_from(&child),
        SafeAction::Wait { state: "WAITING_CHILD".to_string(), key: "ath_1".to_string() }
    );
    for status in ["WAITING_TIMER", "WAITING_EVENT", "WAITING_TAKEOVER"] {
        let action = plan_from(&state(status));
        assert!(matches!(action, SafeAction::Wait { .. }), "{status} stays parked, got {action:?}");
    }
}

#[test]
fn cancellation_outranks_reconciliation_and_waits() {
    let mut cancel = state("WAITING_APPROVAL");
    cancel.cancellation_requested = true;
    cancel.pending_approvals = vec!["apr_1".to_string()];
    cancel.unsettled_effect_id = Some("eff_1".to_string());
    cancel.unsettled_tool_call_id = Some("tc_1".to_string());
    assert_eq!(plan_from(&cancel), SafeAction::Cancel);
}

#[test]
fn an_uncertain_effect_is_reconciled_before_work_resumes() {
    let mut running = state("RUNNING");
    running.unsettled_effect_id = Some("eff_1".to_string());
    running.unsettled_tool_call_id = Some("tc_1".to_string());
    assert_eq!(
        plan_from(&running),
        SafeAction::ReconcileEffect { effect_id: "eff_1".to_string(), tool_call_id: "tc_1".to_string() }
    );
    assert_eq!(plan_from(&state("RUNNING")), SafeAction::Resume);
}

#[test]
fn a_behind_generation_is_stale_and_a_newer_one_supersedes() {
    assert_eq!(fence_decision(3, 3), FenceDecision::Current);
    assert_eq!(fence_decision(2, 3), FenceDecision::Stale);
    assert_eq!(fence_decision(4, 3), FenceDecision::Current);
    let error = fence(2, 3).expect_err("stale");
    assert!(matches!(error, RecoveryError::StaleGeneration { observed: 2, current: 3 }));
    assert_eq!(error.code(), "FENCED_STALE_GENERATION");
    assert!(fence(3, 3).is_ok());
}

#[test]
fn a_terminal_run_is_left_alone_even_with_a_cancellation_pending() {
    let mut done = state("SUCCEEDED");
    done.cancellation_requested = true;
    done.unsettled_effect_id = Some("eff_1".to_string());
    assert_eq!(plan_from(&done), SafeAction::Terminal);
    assert!(!SafeAction::Terminal.mutates());
    assert!(SafeAction::Cancel.mutates());
}

#[test]
fn durable_state_copies_what_the_protocol_state_holds() {
    let mut protocol = ProtocolState::new("run_1", 1);
    protocol.pending_approvals = vec!["apr_1".to_string()];
    protocol.cancellation_requested = true;
    let view = durable_state("WAITING_TIMER", &protocol, Some(("eff_1", None)));
    assert_eq!(view.run_status, "WAITING_TIMER");
    assert!(view.cancellation_requested);
    assert_eq!(view.pending_approvals, vec!["apr_1".to_string()]);
    assert!(view.parked_on_external);
    assert_eq!(view.unsettled_effect_id, Some("eff_1".to_string()));
    assert_eq!(view.unsettled_tool_call_id, None);
}

#[test]
fn each_safe_action_resolves_to_its_report() {
    assert!(awaits_reconciliation("OUTCOME_UNKNOWN"));
    assert!(!awaits_reconciliation("SETTLED"));
    assert_eq!(resolution_for(&SafeAction::Cancel, "CANCELLED", "none"), RecoveryResolution::Cancelled);
    assert_eq!(resolution_for(&SafeAction::Cancel, "SUCCEEDED", "none"), RecoveryResolution::Terminal);
    assert_eq!(
        resolution_for(
            &SafeAction::ReconcileEffect { effect_id: "eff_1".to_string(), tool_call_id: "tc_1".to_string() },
            "",
            "query_provider"
        ),
        RecoveryResolution::ReconciliationRequired {
            effect_id: "eff_1".to_string(),
            strategy: "query_provider".to_string()
        }
    );
    assert_eq!(resolution_for(&SafeAction::Resume, "", ""), RecoveryResolution::Resumable);
}
