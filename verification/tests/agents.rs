use quansio_server::runtime::agents::store::{
    check_transition, cursor_commit_check, cursor_precheck, handoff_completion, handoff_entry, handoff_rollback_check,
    handoff_start_check, join_check, join_precheck, parent_release, plan_delegation, transition_decision, AgentHandoff,
    AgentThread, HandoffStatus, MailboxCursor, NewAgentThread, NewDelegation, ReleaseStep, StructuralDelegationCheck,
};
use quansio_server::runtime::agents::store::{
    delivery_check, DelegationNarrowingCheck, JoinRequest, NewHandoff, NewMailboxItem,
};
use quansio_server::runtime::agents::{
    agent_event_name, check_lifecycle_policy, fence, AgentKind, AgentThreadStatus, RuntimeError, TEAMMATE_CANNOT_JOIN,
    WORKER_MUST_JOIN_BEFORE_TERMINATE,
};
use quansio_server::time::Timestamp;

fn thread(kind: AgentKind, status: AgentThreadStatus, generation: u64) -> AgentThread {
    let at = Timestamp::new(1_789_171_200, 0).expect("timestamp");
    AgentThread {
        id: "ath_child".to_string(),
        tenant_id: "tn_1".to_string(),
        workspace_id: "ws_1".to_string(),
        agent_kind: kind,
        definition_id: None,
        parent_id: Some("ath_parent".to_string()),
        work_node_id: None,
        capability_projection_id: None,
        generation,
        status,
        mailbox_cursor: None,
        execution_target_id: None,
        budget_id: None,
        suspended_reason: None,
        handoff_to_agent_thread_id: None,
        handoff_at: None,
        created_at: at,
        updated_at: at,
    }
}

#[test]
fn agent_statuses_round_trip_through_their_stored_names() {
    for status in AgentThreadStatus::ALL {
        assert_eq!(AgentThreadStatus::from_db_str(status.as_db_str()), Ok(status));
    }
    assert!(matches!(AgentThreadStatus::from_db_str("active"), Err(RuntimeError::UnknownState { .. })));
    for kind in [AgentKind::Teammate, AgentKind::Worker] {
        assert_eq!(AgentKind::from_db_str(kind.as_db_str()), Ok(kind));
    }
}

#[test]
fn a_teammate_never_joins_and_a_worker_joins_before_it_terminates() {
    assert!(matches!(
        check_lifecycle_policy(AgentKind::Teammate, AgentThreadStatus::Active, AgentThreadStatus::Joining),
        Err(RuntimeError::LifecyclePolicy { ref rule, .. }) if rule == TEAMMATE_CANNOT_JOIN
    ));
    assert!(matches!(
        check_lifecycle_policy(AgentKind::Worker, AgentThreadStatus::Active, AgentThreadStatus::Terminated),
        Err(RuntimeError::LifecyclePolicy { ref rule, .. }) if rule == WORKER_MUST_JOIN_BEFORE_TERMINATE
    ));
    assert!(check_lifecycle_policy(AgentKind::Worker, AgentThreadStatus::Joined, AgentThreadStatus::Terminated).is_ok());
    assert!(check_lifecycle_policy(AgentKind::Teammate, AgentThreadStatus::Active, AgentThreadStatus::Terminated).is_ok());
}

#[test]
fn the_state_table_refuses_illegal_moves_before_the_policy() {
    assert!(matches!(
        check_transition(AgentKind::Worker, AgentThreadStatus::Terminated, AgentThreadStatus::Active),
        Err(RuntimeError::IllegalTransition { .. })
    ));
    assert!(check_transition(AgentKind::Teammate, AgentThreadStatus::Active, AgentThreadStatus::Suspended).is_ok());
    assert!(!AgentThreadStatus::Terminated.can_transition_to(AgentThreadStatus::Terminated));
    assert!(AgentThreadStatus::Terminated.is_terminal());
}

#[test]
fn a_stale_generation_is_fenced_out() {
    assert!(fence(3, 3).is_ok());
    assert!(fence(3, 4).is_ok());
    assert_eq!(fence(3, 2), Err(RuntimeError::FencedStaleGeneration { current: 3, received: 2 }));
    let current = thread(AgentKind::Teammate, AgentThreadStatus::Active, 5);
    assert_eq!(
        transition_decision(&current, 4, AgentThreadStatus::Suspended),
        Err(RuntimeError::FencedStaleGeneration { current: 5, received: 4 })
    );
    assert_eq!(transition_decision(&current, 5, AgentThreadStatus::Suspended), Ok("agent.suspended"));
    assert!(matches!(
        transition_decision(&current, 5, AgentThreadStatus::Joined),
        Err(RuntimeError::InvalidArgument(_))
    ));
}

#[test]
fn a_worker_joins_its_parent_once() {
    let worker = thread(AgentKind::Worker, AgentThreadStatus::Active, 1);
    assert_eq!(join_precheck(&worker, 1), Ok(false));
    assert_eq!(join_check(&worker, 1, false), Ok("ath_parent".to_string()));
    assert!(matches!(join_check(&worker, 1, true), Err(RuntimeError::StateConflict { .. })));
    let joined = thread(AgentKind::Worker, AgentThreadStatus::Joined, 1);
    assert_eq!(join_precheck(&joined, 1), Ok(true));
    assert!(matches!(join_check(&joined, 1, false), Err(RuntimeError::StateConflict { .. })));
    let teammate = thread(AgentKind::Teammate, AgentThreadStatus::Active, 1);
    assert!(matches!(join_precheck(&teammate, 1), Err(RuntimeError::LifecyclePolicy { .. })));
}

#[test]
fn a_mailbox_cursor_parses_only_a_sequence_number() {
    assert_eq!(MailboxCursor::parse(None).map(MailboxCursor::get), Ok(0));
    assert_eq!(MailboxCursor::parse(Some("42")).map(MailboxCursor::get), Ok(42));
    assert!(MailboxCursor::parse(Some("-1")).is_err());
    assert!(MailboxCursor::parse(Some("4x")).is_err());
}

fn handoff(status: HandoffStatus, cursor: Option<&str>, run: Option<(&str, u64)>) -> AgentHandoff {
    let at = Timestamp::new(1_789_171_200, 0).expect("timestamp");
    AgentHandoff {
        id: "aho_1".to_string(),
        tenant_id: "tn_1".to_string(),
        workspace_id: "ws_1".to_string(),
        from_agent_thread_id: "ath_child".to_string(),
        to_agent_thread_id: "ath_target".to_string(),
        run_id: run.map(|(id, _)| id.to_string()),
        run_generation: run.map(|(_, g)| g),
        work_node_id: Some("wn_1".to_string()),
        mailbox_cursor: cursor.map(str::to_string),
        evidence_ids: Vec::new(),
        pending_child_thread_ids: Vec::new(),
        conversation_ref: None,
        status,
        completed_at: None,
        created_at: at,
        updated_at: at,
    }
}

fn target(status: AgentThreadStatus) -> AgentThread {
    let mut t = thread(AgentKind::Teammate, status, 1);
    t.id = "ath_target".to_string();
    t.parent_id = None;
    t
}

#[test]
fn a_handoff_starts_only_between_distinct_threads_of_one_workspace() {
    let source = thread(AgentKind::Teammate, AgentThreadStatus::Active, 2);
    let fresh = target(AgentThreadStatus::Provisioned);
    assert!(handoff_start_check(&source, 2, &fresh, Some("ath_child")).is_ok());
    assert_eq!(
        handoff_start_check(&source, 1, &fresh, None),
        Err(RuntimeError::FencedStaleGeneration { current: 2, received: 1 })
    );
    assert_eq!(
        handoff_start_check(&source, 2, &source, None),
        Err(RuntimeError::InvalidArgument("a thread cannot hand its work to itself".to_string()))
    );
    let mut elsewhere = target(AgentThreadStatus::Active);
    elsewhere.workspace_id = "ws_2".to_string();
    assert_eq!(
        handoff_start_check(&source, 2, &elsewhere, None),
        Err(RuntimeError::InvalidArgument("handoff target is in another workspace".to_string()))
    );
    let mut consumed = target(AgentThreadStatus::Active);
    consumed.mailbox_cursor = Some("3".to_string());
    assert_eq!(
        handoff_start_check(&source, 2, &consumed, None),
        Err(RuntimeError::InvalidArgument("handoff target has already consumed mailbox items".to_string()))
    );
    assert_eq!(
        handoff_start_check(&source, 2, &target(AgentThreadStatus::Suspended), None),
        Err(RuntimeError::IllegalTransition {
            entity: "agent_thread".to_string(),
            from: "SUSPENDED".to_string(),
            to: "handoff target".to_string()
        })
    );
    assert_eq!(
        handoff_start_check(&source, 2, &fresh, Some("ath_other")),
        Err(RuntimeError::InvalidArgument("handoff run is not owned by the source thread".to_string()))
    );
}

#[test]
fn a_pending_handoff_completes_into_a_plan_and_settles_once() {
    let source = thread(AgentKind::Teammate, AgentThreadStatus::HandingOff, 2);
    let plan = handoff_completion(
        &handoff(HandoffStatus::Pending, Some("7"), Some(("run_1", 3))),
        &source,
        &target(AgentThreadStatus::Provisioned),
        Some((3, "ath_child")),
    )
    .expect("plan");
    assert!(plan.activate_target);
    assert_eq!(plan.cursor.get(), 7);
    assert!(plan.copy_mailbox);
    assert!(plan.reassign_run);
    assert!(plan.reassign_work_node);
    assert_eq!(
        handoff_completion(
            &handoff(HandoffStatus::Pending, None, Some(("run_1", 2))),
            &source,
            &target(AgentThreadStatus::Active),
            Some((3, "ath_child")),
        ),
        Err(RuntimeError::FencedStaleGeneration { current: 3, received: 2 })
    );
    assert_eq!(
        handoff_completion(
            &handoff(HandoffStatus::Pending, Some("x"), None),
            &source,
            &target(AgentThreadStatus::Active),
            None,
        ),
        Err(RuntimeError::InvalidArgument("invalid mailbox cursor \"x\"".to_string()))
    );
    assert!(matches!(
        handoff_completion(&handoff(HandoffStatus::Completed, None, None), &source, &target(AgentThreadStatus::Active), None),
        Err(RuntimeError::HandoffNotRecoverable { ref status, .. }) if status == "COMPLETED"
    ));
    assert_eq!(handoff_entry("aho_1", HandoffStatus::Completed), Ok(true));
    assert_eq!(handoff_entry("aho_1", HandoffStatus::Pending), Ok(false));
    assert!(handoff_entry("aho_1", HandoffStatus::RolledBack).is_err());
    assert!(handoff_rollback_check(&handoff(HandoffStatus::Pending, None, None), &source).is_ok());
    let idle = thread(AgentKind::Teammate, AgentThreadStatus::Active, 2);
    assert!(matches!(
        handoff_rollback_check(&handoff(HandoffStatus::Pending, None, None), &idle),
        Err(RuntimeError::HandoffNotRecoverable { ref status, .. }) if status == "source ACTIVE"
    ));
}

#[test]
fn a_mailbox_cursor_only_moves_forward_and_never_past_delivery() {
    let mut reader = thread(AgentKind::Teammate, AgentThreadStatus::Active, 2);
    reader.mailbox_cursor = Some("4".to_string());
    assert_eq!(cursor_precheck(&reader, 2, MailboxCursor::new(5)), Ok(true));
    assert_eq!(cursor_precheck(&reader, 2, MailboxCursor::new(4)), Ok(false));
    assert_eq!(
        cursor_precheck(&reader, 1, MailboxCursor::new(5)),
        Err(RuntimeError::FencedStaleGeneration { current: 2, received: 1 })
    );
    assert_eq!(cursor_commit_check(&reader, 2, MailboxCursor::new(5), 9).map(MailboxCursor::get), Ok(4));
    assert!(matches!(
        cursor_commit_check(&reader, 2, MailboxCursor::new(4), 9),
        Err(RuntimeError::StateConflict { .. })
    ));
    assert_eq!(
        cursor_commit_check(&reader, 2, MailboxCursor::new(10), 9),
        Err(RuntimeError::InvalidArgument("cursor 10 is past the last delivered seq 9".to_string()))
    );
}

#[test]
fn a_structural_delegation_records_the_parents_capability() {
    let mut parent = thread(AgentKind::Teammate, AgentThreadStatus::Active, 1);
    parent.id = "ath_parent".to_string();
    parent.capability_projection_id = Some("cap_1".to_string());
    let child = NewAgentThread::new("ws_1", AgentKind::Worker).with_capability_projection("cap_1".to_string());
    let plan = plan_delegation(&StructuralDelegationCheck, &parent, &NewDelegation::new(child)).expect("plan");
    assert_eq!(plan.resolved_capability, Some("cap_1".to_string()));
    assert_eq!(plan.child.parent_id, Some("ath_parent".to_string()));
    let widened = NewAgentThread::new("ws_1", AgentKind::Worker).with_capability_projection("cap_2".to_string());
    assert!(matches!(
        plan_delegation(&StructuralDelegationCheck, &parent, &NewDelegation::new(widened)),
        Err(RuntimeError::CapabilityWideningRejected { .. })
    ));
    let elsewhere = NewAgentThread::new("ws_2", AgentKind::Worker);
    assert_eq!(
        plan_delegation(&StructuralDelegationCheck, &parent, &NewDelegation::new(elsewhere)),
        Err(RuntimeError::InvalidArgument("child workspace ws_2 differs from parent workspace ws_1".to_string()))
    );
}

#[test]
fn a_joined_child_releases_its_waiting_parent_when_it_is_the_last() {
    let children = vec!["ath_a".to_string(), "ath_b".to_string()];
    assert_eq!(
        parent_release("ath_parent", "ath_a", "WAITING_CHILD", "ath_parent", 3, Some(3), &children),
        Ok(ReleaseStep::StillWaiting { remaining: vec!["ath_b".to_string()] })
    );
    assert_eq!(
        parent_release("ath_parent", "ath_b", "WAITING_CHILD", "ath_parent", 3, None, &vec!["ath_b".to_string()]),
        Ok(ReleaseStep::Resume)
    );
    assert_eq!(
        parent_release("ath_parent", "ath_a", "RUNNING", "ath_parent", 3, None, &children),
        Ok(ReleaseStep::NotWaiting)
    );
    assert_eq!(
        parent_release("ath_parent", "ath_a", "WAITING_CHILD", "ath_parent", 3, Some(2), &children),
        Err(RuntimeError::FencedStaleGeneration { current: 3, received: 2 })
    );
}

#[test]
fn each_recorded_transition_names_its_agent_event() {
    assert_eq!(agent_event_name(AgentThreadStatus::Active), Some("agent.activated"));
    assert_eq!(agent_event_name(AgentThreadStatus::HandedOff), Some("agent.handoff_completed"));
    assert_eq!(agent_event_name(AgentThreadStatus::Terminated), Some("agent.terminated"));
    assert_eq!(agent_event_name(AgentThreadStatus::Provisioned), None);
    assert_eq!(agent_event_name(AgentThreadStatus::Joining), None);
}

#[test]
fn a_terminated_thread_receives_no_mail() {
    assert_eq!(delivery_check(&thread(AgentKind::Teammate, AgentThreadStatus::Suspended, 1)), Ok(()));
    assert_eq!(
        delivery_check(&thread(AgentKind::Worker, AgentThreadStatus::Terminated, 1)),
        Err(RuntimeError::IllegalTransition {
            entity: "agent_thread".to_string(),
            from: "TERMINATED".to_string(),
            to: "mailbox delivery".to_string(),
        })
    );
}

#[test]
fn the_structural_check_requires_the_parents_own_capability() {
    let mut parent = thread(AgentKind::Teammate, AgentThreadStatus::Active, 1);
    parent.capability_projection_id = Some("cap_1".to_string());
    let child = NewAgentThread::new("ws_1", AgentKind::Worker).with_capability_projection("cap_1".to_string());
    assert_eq!(StructuralDelegationCheck::check_structure(&parent, &child, Some("cap_1")), Ok(()));
    assert_eq!(
        StructuralDelegationCheck::check_structure(&parent, &child, None),
        Err(RuntimeError::CapabilityWideningRejected {
            detail: "child must record the parent's delegated capability id".to_string()
        })
    );
    let bare_parent = thread(AgentKind::Teammate, AgentThreadStatus::Active, 1);
    let bare_child = NewAgentThread::new("ws_1", AgentKind::Worker);
    assert_eq!(StructuralDelegationCheck::check_structure(&bare_parent, &bare_child, None), Ok(()));
    assert_eq!(
        StructuralDelegationCheck::check_structure(&bare_parent, &child, None),
        Err(RuntimeError::CapabilityWideningRejected {
            detail: "parent holds no delegation capability, so the child cannot record one".to_string()
        })
    );
}

#[test]
fn builders_set_only_the_field_they_name() {
    let child = NewAgentThread::new("ws_1", AgentKind::Worker).with_work_node("wn_1".to_string());
    assert_eq!(child.work_node_id, Some("wn_1".to_string()));
    assert_eq!(child.capability_projection_id, None);
    let delegation = NewDelegation::new(child.clone()).with_instruction("summarise").with_work_node("wn_2".to_string());
    assert_eq!(delegation.instruction, Some("summarise".to_string()));
    assert_eq!(delegation.work_node_id, Some("wn_2".to_string()));
    assert_eq!(delegation.child, child);
    let handoff = NewHandoff::new("ath_t".to_string())
        .with_run("run_1".to_string())
        .with_evidence(vec!["ev_1".to_string()])
        .with_conversation_ref("conv_1");
    assert_eq!(handoff.run_id, Some("run_1".to_string()));
    assert_eq!(handoff.evidence_ids, vec!["ev_1".to_string()]);
    assert_eq!(handoff.conversation_ref, Some("conv_1".to_string()));
    assert_eq!(handoff.work_node_id, None);
    let join = JoinRequest::new("ath_c".to_string(), 2)
        .with_lineage(vec!["ev_1".to_string()], Vec::new(), "{\"ok\":true}".to_string())
        .with_parent_run("run_p".to_string(), 5);
    assert_eq!(join.child_status, "SUCCEEDED");
    assert_eq!(join.outcome, "{\"ok\":true}");
    assert_eq!((join.parent_run_id, join.parent_run_generation), (Some("run_p".to_string()), Some(5)));
    let item = NewMailboxItem::new("msg_1");
    assert_eq!(item.payload, "{}");
    assert_eq!(item.with_payload("{\"a\":1}".to_string()).payload, "{\"a\":1}");
}

#[test]
fn a_cursor_text_parses_back_to_the_cursor() {
    for n in [0u64, 7, 42, 1_000, u64::MAX] {
        let text = MailboxCursor::new(n).to_text();
        assert_eq!(text, n.to_string());
        assert_eq!(MailboxCursor::parse(Some(&text)).map(MailboxCursor::get), Ok(n));
    }
}

struct Recording {
    seen: std::cell::RefCell<Vec<Option<String>>>,
}

impl DelegationNarrowingCheck for Recording {
    fn check(&self, _parent: &AgentThread, _child: &NewAgentThread, recorded: Option<&str>) -> Result<(), RuntimeError> {
        self.seen.borrow_mut().push(recorded.map(str::to_string));
        Err(RuntimeError::CapabilityWideningRejected { detail: "no".to_string() })
    }
}

#[test]
fn a_delegation_hands_the_check_the_capability_it_records_and_passes_its_refusal_on() {
    let mut parent = thread(AgentKind::Teammate, AgentThreadStatus::Active, 1);
    parent.capability_projection_id = Some("cap_parent".to_string());
    let recording = Recording { seen: std::cell::RefCell::new(Vec::new()) };
    let child = NewAgentThread::new("ws_1", AgentKind::Worker);
    assert_eq!(
        plan_delegation(&recording, &parent, &NewDelegation::new(child.clone())),
        Err(RuntimeError::CapabilityWideningRejected { detail: "no".to_string() })
    );
    let mut explicit = NewDelegation::new(child);
    explicit.delegation_capability_id = Some("cap_narrow".to_string());
    assert!(plan_delegation(&recording, &parent, &explicit).is_err());
    assert_eq!(
        *recording.seen.borrow(),
        vec![Some("cap_parent".to_string()), Some("cap_narrow".to_string())]
    );
}
