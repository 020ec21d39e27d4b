use quansio_server::policy::capability::{EffectClass, PolicyDecision, ResourceSelector, Tier, UserRuleDecision};
use quansio_server::policy::escalation::{
    derived_from_labels, derived_from_trust, escalate, TrustLabellingSource, TrustLevel, UnavailableTrustLabelling,
    FAIL_CLOSED_TRUST,
};
use quansio_server::policy::guards::{
    check_privacy, check_sequence, DataClass, EgressDestination, EgressGrantSet, GuardFailure, GuardOutcome,
    PrivacyInputs, SequenceContext, SequenceGuard,
};
use quansio_server::policy::rbac::{check, ActionFamily, ActorRoles, RbacFailure, TenantRole, WorkspaceRole};
use quansio_server::policy::rules::{
    user_rule_decision_str, validate_user_rule, Policy, PolicyRule, PolicyScope, PolicySet, RuleConditions, RuleContext, TimeWindow,
};
use quansio_server::time::Timestamp;

fn class(value: &str) -> DataClass {
    DataClass::parse(value.to_string()).expect("data class")
}

fn effect(value: &str) -> EffectClass {
    EffectClass::parse(value).expect("effect class")
}

fn selector(value: &str) -> ResourceSelector {
    ResourceSelector::from_parts("domain", value).expect("selector")
}

fn at(secs: i64) -> Timestamp {
    Timestamp::new(secs, 0).expect("timestamp")
}

// 2026-09-12T00:00:00Z
const DAY_START: i64 = 1_789_171_200;

#[test]
fn every_trust_level_round_trips() {
    for level in TrustLevel::ALL {
        assert_eq!(TrustLevel::parse(level.as_str()).expect("level"), level);
    }
    assert!(TrustLevel::parse("trusted").is_err());
}

#[test]
fn untrusted_external_escalates_tier_two_and_above_by_one() {
    for raw in 0u8..=4 {
        let tier = Tier::new(raw).expect("tier");
        let result = escalate(tier, TrustLevel::UntrustedExternal);
        if raw >= 2 {
            assert!(result.escalated, "tier {raw}");
            assert_eq!(result.effective_tier.get(), (raw + 1).min(4));
        } else {
            assert!(!result.escalated, "tier {raw}");
            assert_eq!(result.effective_tier, tier);
        }
    }
}

#[test]
fn trusted_derivations_never_escalate() {
    for level in [
        TrustLevel::TrustedSystem,
        TrustLevel::TrustedUser,
        TrustLevel::VerifiedKnowledge,
        TrustLevel::AgentGenerated,
    ] {
        let tier = Tier::new(3).expect("tier");
        let result = escalate(tier, level);
        assert!(!result.escalated);
        assert!(result.allows_always());
    }
}

#[test]
fn escalation_forbids_always_and_requires_receipt() {
    let result = escalate(Tier::new(2).expect("tier"), TrustLevel::UntrustedExternal);
    assert!(result.escalated);
    assert_eq!(result.effective_tier.get(), 3);
    assert!(result.requires_receipt());
    assert!(!result.allows_always());
}

#[test]
fn unavailable_labelling_fails_closed() {
    let source = UnavailableTrustLabelling;
    assert_eq!(derived_from_trust(&source, &["seg_a".to_string()]), FAIL_CLOSED_TRUST);
    assert_eq!(derived_from_trust(&source, &[]), FAIL_CLOSED_TRUST);
}

struct Fixed(std::collections::HashMap<String, TrustLevel>);

impl TrustLabellingSource for Fixed {
    fn trust_of(&self, segment_ref: &str) -> Option<TrustLevel> {
        self.0.get(segment_ref).copied()
    }
}

#[test]
fn derived_trust_is_the_most_untrusted_label() {
    let source = Fixed(std::collections::HashMap::from([
        ("a".to_string(), TrustLevel::TrustedUser),
        ("b".to_string(), TrustLevel::AgentGenerated),
    ]));
    assert_eq!(
        derived_from_trust(&source, &["a".to_string(), "b".to_string()]),
        TrustLevel::AgentGenerated
    );
    assert_eq!(derived_from_trust(&source, &["a".to_string()]), TrustLevel::TrustedUser);
}

#[test]
fn one_unlabelled_segment_makes_the_whole_derivation_untrusted() {
    assert_eq!(
        derived_from_labels(&[Some(TrustLevel::TrustedSystem), None, Some(TrustLevel::TrustedUser)]),
        TrustLevel::UntrustedExternal
    );
    assert_eq!(
        derived_from_labels(&[Some(TrustLevel::VerifiedKnowledge), Some(TrustLevel::TrustedSystem)]),
        TrustLevel::VerifiedKnowledge
    );
    assert_eq!(derived_from_labels(&[]), TrustLevel::UntrustedExternal);
}

#[test]
fn protected_data_class_names_are_protected() {
    for name in DataClass::PROTECTED {
        assert!(class(name).is_protected(), "{name}");
    }
    assert!(!class("public").is_protected());
    assert!(DataClass::parse("PII".to_string()).is_err());
}

#[test]
fn protected_movement_without_egress_grant_is_denied() {
    let classes = vec![class("pii")];
    let destination = EgressDestination::domain("api.example.com");
    let grants = EgressGrantSet::default();
    assert_eq!(
        check_privacy(PrivacyInputs {
            data_classes: &classes,
            destination: Some(&destination),
            egress_grants: &grants,
            untrusted_origin: false,
        }),
        GuardOutcome::Denied(GuardFailure::ProtectedEgressDenied)
    );

    let granted = EgressGrantSet::new(vec![EgressDestination::domain("api.example.com")]);
    assert!(check_privacy(PrivacyInputs {
        data_classes: &classes,
        destination: Some(&destination),
        egress_grants: &granted,
        untrusted_origin: false,
    })
    .is_permitted());
}

#[test]
fn untrusted_origin_without_egress_grant_is_denied() {
    assert_eq!(
        check_privacy(PrivacyInputs {
            data_classes: &[],
            destination: Some(&EgressDestination::connector("cnx_x/chan")),
            egress_grants: &EgressGrantSet::default(),
            untrusted_origin: true,
        }),
        GuardOutcome::Denied(GuardFailure::UntrustedEgressDenied)
    );
    assert!(check_privacy(PrivacyInputs {
        data_classes: &[],
        destination: Some(&EgressDestination::connector("cnx_x/chan")),
        egress_grants: &EgressGrantSet::default(),
        untrusted_origin: false,
    })
    .is_permitted());
    assert!(check_privacy(PrivacyInputs {
        data_classes: &[class("pii")],
        destination: None,
        egress_grants: &EgressGrantSet::default(),
        untrusted_origin: true,
    })
    .is_permitted());
}

#[test]
fn approval_cannot_be_used_before_it_is_granted() {
    let context = SequenceContext {
        granted_approval_ids: vec!["apr_a".to_string()],
        used_approval_ids: vec!["apr_b".to_string()],
        ..SequenceContext::default()
    };
    assert_eq!(
        check_sequence(&[SequenceGuard::ApprovalGrantedBeforeUse], &context),
        GuardOutcome::Denied(GuardFailure::SequenceViolation(SequenceGuard::ApprovalGrantedBeforeUse))
    );
    let granted = SequenceContext {
        granted_approval_ids: vec!["apr_b".to_string()],
        used_approval_ids: vec!["apr_b".to_string()],
        ..SequenceContext::default()
    };
    assert_eq!(
        check_sequence(&[SequenceGuard::ApprovalGrantedBeforeUse], &granted),
        GuardOutcome::Permitted
    );
}

#[test]
fn settlement_cannot_precede_its_reservation() {
    let context = SequenceContext {
        reserved_effect_ids: Vec::new(),
        settled_effect_ids: vec!["eff_a".to_string()],
        ..SequenceContext::default()
    };
    assert_eq!(
        check_sequence(&[SequenceGuard::ReservationBeforeSettlement], &context),
        GuardOutcome::Denied(GuardFailure::SequenceViolation(SequenceGuard::ReservationBeforeSettlement))
    );
    let reserved = SequenceContext {
        reserved_effect_ids: vec!["eff_a".to_string()],
        settled_effect_ids: vec!["eff_a".to_string()],
        ..SequenceContext::default()
    };
    assert_eq!(
        check_sequence(&[SequenceGuard::ReservationBeforeSettlement], &reserved),
        GuardOutcome::Permitted
    );
}

#[test]
fn role_names_round_trip() {
    for role in WorkspaceRole::ALL {
        assert_eq!(WorkspaceRole::parse(role.as_str()).expect("role"), role);
    }
    for role in TenantRole::ALL {
        assert_eq!(TenantRole::parse(role.as_str()).expect("role"), role);
    }
    assert!(WorkspaceRole::parse("root").is_err());
}

#[test]
fn tenant_owner_and_admin_inherit_workspace_admin() {
    for tenant in [TenantRole::Owner, TenantRole::Admin] {
        let roles = ActorRoles::new(Some(tenant), None);
        assert_eq!(roles.effective_workspace_role(), Some(WorkspaceRole::Admin));
        assert!(check(roles, ActionFamily::ManageWorkspace).is_ok());
        assert!(check(roles, ActionFamily::AdminOps).is_ok());
    }
}

#[test]
fn missing_role_denies_every_workspace_action() {
    let roles = ActorRoles::default();
    for action in [
        ActionFamily::Read,
        ActionFamily::AuthorWork,
        ActionFamily::ApproveEffect,
        ActionFamily::ManageWorkspace,
        ActionFamily::AdminOps,
        ActionFamily::ExecuteEffect { tier: 1 },
    ] {
        assert_eq!(check(roles, action), Err(RbacFailure::NoRole), "{action:?}");
    }
}

#[test]
fn approver_approves_but_does_not_author_work() {
    let roles = ActorRoles::new(Some(TenantRole::Member), Some(WorkspaceRole::Approver));
    assert!(check(roles, ActionFamily::ApproveEffect).is_ok());
    assert_eq!(check(roles, ActionFamily::AuthorWork), Err(RbacFailure::InsufficientRole));
    assert!(check(roles, ActionFamily::ExecuteEffect { tier: 3 }).is_ok());
    assert_eq!(
        check(roles, ActionFamily::ExecuteEffect { tier: 4 }),
        Err(RbacFailure::InsufficientRole)
    );
}

#[test]
fn viewer_only_reads_and_billing_only_views_usage() {
    let viewer = ActorRoles::new(Some(TenantRole::Member), Some(WorkspaceRole::Viewer));
    assert!(check(viewer, ActionFamily::Read).is_ok());
    assert_eq!(
        check(viewer, ActionFamily::ExecuteEffect { tier: 0 }),
        Err(RbacFailure::InsufficientRole)
    );

    let billing = ActorRoles::new(Some(TenantRole::Billing), None);
    assert!(check(billing, ActionFamily::ViewUsage).is_ok());
    assert_eq!(check(billing, ActionFamily::ManageTenant), Err(RbacFailure::InsufficientRole));
}

#[test]
fn scope_round_trips() {
    assert_eq!(PolicyScope::parse("tenant").expect("scope"), PolicyScope::Tenant);
    assert!(PolicyScope::parse("global").is_err());
    assert_eq!(PolicyScope::parse(PolicyScope::Workspace.as_str()).expect("scope"), PolicyScope::Workspace);
}

#[test]
fn time_window_handles_wrap_and_rejects_garbage() {
    let window = TimeWindow::new("22:00", "06:00");
    let inside = at(DAY_START + 23 * 3600 + 30 * 60);
    let outside = at(DAY_START + 12 * 3600);
    assert!(window.holds(inside));
    assert!(!window.holds(outside));
    assert!(!TimeWindow::new("25:00", "06:00").holds(inside));
    assert!(!TimeWindow::new("oops", "06:00").holds(inside));
}

#[test]
fn a_plain_window_excludes_its_end_minute() {
    let window = TimeWindow::new("09:00", "17:00");
    assert!(window.holds(at(DAY_START + 9 * 3600)));
    assert!(window.holds(at(DAY_START + 16 * 3600 + 59 * 60)));
    assert!(!window.holds(at(DAY_START + 17 * 3600)));
}

#[test]
fn conditions_fail_closed_on_unlisted_data_class() {
    let conditions = RuleConditions { data_classes: vec![class("pii")], ..RuleConditions::none() };
    let sequence = SequenceContext::default();
    let now = at(DAY_START);
    let listed = [class("pii")];
    let unlisted = [class("public")];
    let holds = conditions.hold(&RuleContext {
        trust: TrustLevel::TrustedUser,
        effective_tier: Tier::new(2).expect("tier"),
        data_classes: &listed,
        now,
        sequence: &sequence,
    });
    assert!(holds);
    let fails = conditions.hold(&RuleContext {
        trust: TrustLevel::TrustedUser,
        effective_tier: Tier::new(2).expect("tier"),
        data_classes: &unlisted,
        now,
        sequence: &sequence,
    });
    assert!(!fails);
}

#[test]
fn rule_conditions_deny_above_tier_and_trust_ceilings() {
    let conditions = RuleConditions {
        tier_max: Some(Tier::new(2).expect("tier")),
        trust_max: Some(TrustLevel::AgentGenerated),
        ..RuleConditions::none()
    };
    let sequence = SequenceContext::default();
    let now = at(DAY_START);
    assert!(conditions.hold(&RuleContext {
        trust: TrustLevel::AgentGenerated,
        effective_tier: Tier::new(2).expect("tier"),
        data_classes: &[],
        now,
        sequence: &sequence,
    }));
    assert!(!conditions.hold(&RuleContext {
        trust: TrustLevel::UntrustedExternal,
        effective_tier: Tier::new(2).expect("tier"),
        data_classes: &[],
        now,
        sequence: &sequence,
    }));
    assert!(!conditions.hold(&RuleContext {
        trust: TrustLevel::AgentGenerated,
        effective_tier: Tier::new(3).expect("tier"),
        data_classes: &[],
        now,
        sequence: &sequence,
    }));
}

#[test]
fn workspace_policy_can_only_narrow_tenant_policy() {
    let tenant = Policy::new(
        "pol_t",
        PolicyScope::Tenant,
        None,
        vec![PolicyRule {
            effect_class: effect("message.send"),
            resource_selector: selector("*"),
            decision: PolicyDecision::Deny,
            conditions: RuleConditions::none(),
        }],
    );
    let workspace = Policy::new(
        "pol_w",
        PolicyScope::Workspace,
        Some("ws_x".to_string()),
        vec![PolicyRule {
            effect_class: effect("message.send"),
            resource_selector: selector("*"),
            decision: PolicyDecision::Allow,
            conditions: RuleConditions::none(),
        }],
    );
    let set = PolicySet { tenant: Some(tenant), workspace: Some(workspace) };
    let sequence = SequenceContext::default();
    let context = RuleContext {
        trust: TrustLevel::TrustedUser,
        effective_tier: Tier::new(3).expect("tier"),
        data_classes: &[],
        now: at(DAY_START),
        sequence: &sequence,
    };
    let matching = set.matching_rules(&effect("message.send"), &selector("api.example.com"), &context);
    assert_eq!(matching.len(), 2);
    assert!(matching.iter().any(|rule| rule.decision == PolicyDecision::Deny));
    assert_eq!(matching[0].decision, PolicyDecision::Deny, "tenant rules come first");
}

#[test]
fn always_on_tier_four_is_rejected() {
    let payment = effect("payment.execute");
    assert!(validate_user_rule("rule_1", &payment, UserRuleDecision::Always, Tier::new(4).expect("tier")).is_err());
    assert!(validate_user_rule("rule_1", &payment, UserRuleDecision::Ask, Tier::new(4).expect("tier")).is_ok());
    assert!(validate_user_rule(
        "rule_1",
        &effect("message.send"),
        UserRuleDecision::Always,
        Tier::new(3).expect("tier")
    )
    .is_ok());
}

#[test]
fn instants_compare_shift_and_report_their_minute() {
    let noon = Timestamp::new(DAY_START + 12 * 3600 + 90, 5).expect("timestamp");
    assert_eq!(noon.minute_of_day(), 12 * 60 + 1);
    assert_eq!(noon.nanos(), 5);
    let later = noon.plus_seconds(30).expect("in range");
    assert_eq!(later.secs(), DAY_START + 12 * 3600 + 120);
    assert!(noon.is_before(&later) && !later.is_before(&noon) && !noon.is_before(&noon));
    assert!(noon.plus_seconds(i64::MAX).is_none());
    assert_eq!(at(-60).minute_of_day(), 1439, "the minute of the day counts from midnight UTC, before the epoch too");
    assert!(Timestamp::new(0, 1_000_000_000).is_none());
}

#[test]
fn trust_ranks_and_roles() {
    assert_eq!(TrustLevel::TrustedSystem.rank(), 0);
    assert_eq!(TrustLevel::UntrustedExternal.rank(), 4);
    assert!(TrustLevel::UntrustedExternal.is_untrusted_external());
    assert!(!TrustLevel::AgentGenerated.is_untrusted_external());
    assert!(TenantRole::Owner.inherits_workspace_admin() && TenantRole::Admin.inherits_workspace_admin());
    assert!(!TenantRole::Member.inherits_workspace_admin());
    assert_eq!(user_rule_decision_str(UserRuleDecision::Always), "always");
    assert_eq!(user_rule_decision_str(UserRuleDecision::Never), "never");
}

#[test]
fn policies_are_read_tenant_first_and_versions_follow() {
    let set = PolicySet {
        tenant: Some(Policy::new("pol_t", PolicyScope::Tenant, None, Vec::new())),
        workspace: Some(Policy::new("pol_w", PolicyScope::Workspace, Some("ws_1".to_string()), Vec::new())),
    };
    let ids: Vec<&str> = set.in_order().iter().map(|p| p.id.as_str()).collect();
    assert_eq!(ids, vec!["pol_t", "pol_w"]);
    assert_eq!(set.versions(), vec![("pol_t".to_string(), 1), ("pol_w".to_string(), 1)]);
    let only_workspace = PolicySet { tenant: None, workspace: set.workspace.clone() };
    assert_eq!(only_workspace.versions(), vec![("pol_w".to_string(), 1)]);
}

struct Counting {
    labels: std::collections::HashMap<String, TrustLevel>,
    asked: std::cell::RefCell<Vec<String>>,
}

impl TrustLabellingSource for Counting {
    fn trust_of(&self, segment_ref: &str) -> Option<TrustLevel> {
        self.asked.borrow_mut().push(segment_ref.to_string());
        self.labels.get(segment_ref).copied()
    }
}

#[test]
fn derivation_stops_at_the_first_unlabelled_segment() {
    let source = Counting {
        labels: std::collections::HashMap::from([("a".to_string(), TrustLevel::TrustedSystem)]),
        asked: std::cell::RefCell::new(Vec::new()),
    };
    let segments = ["a".to_string(), "gone".to_string(), "a".to_string()];
    assert_eq!(derived_from_trust(&source, &segments), TrustLevel::UntrustedExternal);
    assert_eq!(*source.asked.borrow(), vec!["a".to_string(), "gone".to_string()]);
}

#[test]
fn every_guard_fails_closed_over_an_empty_context() {
    let empty = SequenceContext::empty();
    for guard in [SequenceGuard::ApprovalGrantedBeforeUse, SequenceGuard::ReservationBeforeSettlement] {
        assert!(!guard.holds(&empty), "{guard:?}");
        assert_eq!(
            check_sequence(&[guard], &empty),
            GuardOutcome::Denied(GuardFailure::SequenceViolation(guard))
        );
    }
    let granted = SequenceContext {
        granted_approval_ids: vec!["apr_a".to_string()],
        used_approval_ids: vec!["apr_a".to_string()],
        ..SequenceContext::default()
    };
    assert!(SequenceGuard::ApprovalGrantedBeforeUse.holds(&granted));
    assert!(!SequenceGuard::ReservationBeforeSettlement.holds(&granted), "the context carries no settlement facts");
    let grants_only = SequenceContext {
        granted_approval_ids: vec!["apr_a".to_string()],
        reserved_effect_ids: vec!["eff_a".to_string()],
        ..SequenceContext::default()
    };
    assert!(SequenceGuard::ApprovalGrantedBeforeUse.holds(&grants_only), "nothing used, grants carried");
    assert!(SequenceGuard::ReservationBeforeSettlement.holds(&grants_only), "nothing settled, reservations carried");
}
