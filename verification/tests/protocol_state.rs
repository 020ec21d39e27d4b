use quansio_server::runtime::protocol_state::{
    is_unsettled, next_safe_action, protocol_row_id, BrowserControl, BrowserControlHolder, NextAction,
    PendingToolCall, ProtocolState, Wait, WaitKind,
};

fn call(id: &str, effect: &str, status: &str) -> PendingToolCall {
    PendingToolCall {
        tool_call_id: id.to_string(),
        tool_name: "shell.exec".to_string(),
        dispatch_token: "dtk_1".to_string(),
        effect_id: effect.to_string(),
        effect_status: status.to_string(),
    }
}

#[test]
fn a_fresh_state_continues_the_loop() {
    let state = ProtocolState::new("run_1", 3);
    assert_eq!(state.generation, 3);
    assert_eq!(next_safe_action(&state), NextAction::Continue);
}

#[test]
fn an_unknown_outcome_is_reconciled_and_never_retried() {
    let mut state = ProtocolState::new("run_1", 1);
    state.pending_tool_calls = vec![
        call("tc_1", "eff_1", "SETTLED"),
        call("tc_2", "eff_2", "OUTCOME_UNKNOWN"),
        call("tc_3", "eff_3", "DISPATCHED"),
    ];
    state.pending_approvals = vec!["apr_1".to_string()];
    assert_eq!(
        next_safe_action(&state),
        NextAction::ReconcileEffect { effect_id: "eff_2".to_string(), tool_call_id: "tc_2".to_string() }
    );
    state.cancellation_requested = true;
    assert_eq!(next_safe_action(&state), NextAction::Cancel);
    assert!(is_unsettled("RECONCILING"));
    assert!(!is_unsettled("COMMITTED"));
}

#[test]
fn waits_are_honoured_in_priority_order() {
    let mut state = ProtocolState::new("run_1", 1);
    state.waits = vec![Wait { kind: WaitKind::Timer, key: "t1".to_string(), expires_at: None }];
    state.child_agent_threads = vec!["ath_c".to_string()];
    state.browser_control = Some(BrowserControl {
        session_id: "bs_1".to_string(),
        holder: BrowserControlHolder::User,
        since: None,
    });
    state.open_questions = vec!["q_1".to_string()];
    assert_eq!(next_safe_action(&state), NextAction::WaitQuestion { question_id: "q_1".to_string() });
    state.open_questions.clear();
    assert_eq!(next_safe_action(&state), NextAction::AwaitHandback { session_id: "bs_1".to_string() });
    state.browser_control = None;
    assert_eq!(next_safe_action(&state), NextAction::WaitChild { child_agent_thread_id: "ath_c".to_string() });
    state.child_agent_threads.clear();
    assert_eq!(
        next_safe_action(&state),
        NextAction::WaitFor { wait: Wait { kind: WaitKind::Timer, key: "t1".to_string(), expires_at: None } }
    );
}

#[test]
fn the_row_id_strips_the_run_prefix() {
    assert_eq!(protocol_row_id("run_01J8"), "pst_01J8");
    assert_eq!(protocol_row_id("run_run_x"), "pst_x");
    assert_eq!(protocol_row_id("other"), "pst_other");
}
