use quansio_server::crypto::Digest;
use quansio_server::policy::approval::{
    verify_receipt, ApprovalReceipt, ApprovalRequestRecord, ApprovalRequestStatus, ApprovalSigner, ConsequencePreview,
    DispatchBinding, ReceiptScope, RequestedOf,
};
use quansio_server::policy::capability::{EffectClass, PolicyDecision, ResourceSelector, Tier, UserRuleDecision};
use quansio_server::policy::error::ApprovalFailure;
use quansio_server::policy::escalation::TrustLevel;
use quansio_server::policy::evaluation::{EvaluationRequest, PolicyEvaluator, PolicyReason, UserRuleRejection};
use quansio_server::policy::guards::{
    DataClass, EgressDestination, EgressGrantSet, GuardFailure, SequenceContext, SequenceGuard,
};
use quansio_server::policy::rbac::{ActionFamily, ActorRoles, RbacFailure, TenantRole, WorkspaceRole};
use quansio_server::policy::rules::{Policy, PolicyRule, PolicyScope, PolicySet, RuleConditions, UserRule};
use quansio_server::time::Timestamp;

const NOW: i64 = 1_789_171_200;

fn at(secs: i64) -> Timestamp {
    Timestamp::new(secs, 0).expect("timestamp")
}

fn digest(text: &str) -> Digest {
    Digest::of(text.as_bytes())
}

fn signed_receipt(signer: &ApprovalSigner) -> ApprovalReceipt {
    let mut signed = ApprovalReceipt {
        id: "arc_01J8Z3K6F1N8VQ2X5W9Y0TEST".to_string(),
        request_id: "apr_x".to_string(),
        effect_id: "eff_x".to_string(),
        approver_user_id: "usr_x".to_string(),
        params_digest: digest("params"),
        scope: ReceiptScope::SingleUse,
        generation: 1,
        granted_at: at(NOW),
        expires_at: at(NOW + 600),
        signature: String::new(),
    };
    signed.signature = signer.sign(&signed).expect("sign");
    signed
}

fn binding(effect_id: &str, params: &str, generation: u64) -> DispatchBinding {
    DispatchBinding { effect_id: effect_id.to_string(), params_digest: digest(params), generation }
}

#[test]
fn a_valid_receipt_verifies_for_its_exact_binding() {
    let signer = ApprovalSigner::new(b"server-key".to_vec()).expect("signer");
    let receipt = signed_receipt(&signer);
    assert!(verify_receipt(&signer, &receipt, &binding("eff_x", "params", 1), at(NOW)).is_ok());
}

#[test]
fn a_tampered_receipt_never_verifies() {
    let signer = ApprovalSigner::new(b"server-key".to_vec()).expect("signer");
    let mut receipt = signed_receipt(&signer);
    receipt.effect_id = "eff_other".to_string();
    assert_eq!(signer.verify(&receipt), Err(ApprovalFailure::SignatureInvalid));

    let mut forged = signed_receipt(&signer);
    forged.signature = hex::encode([0u8; 32]);
    assert_eq!(signer.verify(&forged), Err(ApprovalFailure::SignatureInvalid));
}

#[test]
fn a_signature_from_another_key_never_verifies() {
    let signer = ApprovalSigner::new(b"server-key".to_vec()).expect("signer");
    let other = ApprovalSigner::new(b"other-key".to_vec()).expect("signer");
    let receipt = signed_receipt(&signer);
    assert_eq!(other.verify(&receipt), Err(ApprovalFailure::SignatureInvalid));
}

#[test]
fn binding_mismatches_are_typed_failures() {
    let signer = ApprovalSigner::new(b"server-key".to_vec()).expect("signer");
    let receipt = signed_receipt(&signer);
    let now = at(NOW);
    assert!(matches!(
        verify_receipt(&signer, &receipt, &binding("eff_x", "changed", 1), now),
        Err(ApprovalFailure::ParamsChanged { .. })
    ));
    assert!(matches!(
        verify_receipt(&signer, &receipt, &binding("eff_x", "params", 2), now),
        Err(ApprovalFailure::GenerationStale { .. })
    ));
    assert!(matches!(
        verify_receipt(&signer, &receipt, &binding("eff_y", "params", 1), now),
        Err(ApprovalFailure::EffectMismatch { .. })
    ));
}

#[test]
fn an_expired_receipt_is_refused() {
    let signer = ApprovalSigner::new(b"server-key".to_vec()).expect("signer");
    let mut receipt = signed_receipt(&signer);
    receipt.expires_at = at(NOW - 1);
    receipt.signature = signer.sign(&receipt).expect("sign");
    assert_eq!(
        verify_receipt(&signer, &receipt, &binding("eff_x", "params", 1), at(NOW)),
        Err(ApprovalFailure::Expired)
    );
}

#[test]
fn an_empty_key_is_refused() {
    assert_eq!(ApprovalSigner::new(Vec::new()).err(), Some(ApprovalFailure::SignatureKeyMissing));
}

#[test]
fn a_signature_is_sixty_four_lowercase_hex_digits_and_depends_on_the_key() {
    let signer = ApprovalSigner::new(b"server-key".to_vec()).expect("signer");
    let other = ApprovalSigner::new(b"other-key".to_vec()).expect("signer");
    let receipt = signed_receipt(&signer);
    let signature = signer.sign(&receipt).expect("sign");
    assert_eq!(signature.len(), 64);
    assert!(signature.chars().all(|c| c.is_ascii_digit() || ('a'..='f').contains(&c)));
    assert_ne!(signature, other.sign(&receipt).expect("sign"));
    assert_ne!(receipt.signing_message(), String::new());
}

#[test]
fn request_status_round_trips_and_supersession_detects_changed_params() {
    for status in [
        ApprovalRequestStatus::Requested,
        ApprovalRequestStatus::Granted,
        ApprovalRequestStatus::Denied,
        ApprovalRequestStatus::Expired,
        ApprovalRequestStatus::Superseded,
    ] {
        assert_eq!(ApprovalRequestStatus::parse(status.as_str()).expect("status"), status);
    }
    let request = ApprovalRequestRecord {
        id: "apr_01J8Z3K6F1N8VQ2X5W9Y0TEST".to_string(),
        tenant_id: "tn_x".to_string(),
        workspace_id: "ws_x".to_string(),
        run_id: "run_x".to_string(),
        effect_id: "eff_x".to_string(),
        requested_of: vec![RequestedOf::User("usr_x".to_string())],
        summary: "summary".to_string(),
        consequence_preview: ConsequencePreview::default(),
        params_digest: digest("params"),
        capability_projection_id: "cap_x".to_string(),
        status: ApprovalRequestStatus::Requested,
        expires_at: at(NOW + 600),
    };
    assert!(request.is_superseded_by(&digest("changed")));
    assert!(!request.is_superseded_by(&digest("params")));
    assert!(request.is_grantable(at(NOW)));
    assert!(!request.is_grantable(at(NOW + 600)));
}

fn class(value: &str) -> EffectClass {
    EffectClass::parse(value).expect("effect class")
}

fn selector(value: &str) -> ResourceSelector {
    ResourceSelector::from_parts("domain", value).expect("selector")
}

fn rule(effect_class: &str, decision: PolicyDecision) -> PolicyRule {
    PolicyRule {
        effect_class: class(effect_class),
        resource_selector: selector("*"),
        decision,
        conditions: RuleConditions::none(),
    }
}

fn policy_set(rules: Vec<PolicyRule>) -> PolicySet {
    PolicySet { tenant: Some(Policy::new("pol_t", PolicyScope::Tenant, None, rules)), workspace: None }
}

fn no_policies() -> PolicySet {
    PolicySet { tenant: None, workspace: None }
}

fn editor() -> ActorRoles {
    ActorRoles::new(Some(TenantRole::Member), Some(WorkspaceRole::Editor))
}

fn approver() -> ActorRoles {
    ActorRoles::new(Some(TenantRole::Member), Some(WorkspaceRole::Approver))
}

fn user_rule(effect_class: &str, decision: UserRuleDecision) -> UserRule {
    UserRule {
        id: "rule_1".to_string(),
        user_id: "usr_x".to_string(),
        workspace_id: "ws_x".to_string(),
        effect_class: class(effect_class),
        resource_selector: selector("*"),
        decision,
        expires_at: None,
    }
}

fn request<'a>(
    effect: &'a EffectClass,
    resource: &'a ResourceSelector,
    tier: Tier,
    action: ActionFamily,
    grants: &'a EgressGrantSet,
    sequence: &'a SequenceContext,
) -> EvaluationRequest<'a> {
    EvaluationRequest {
        effect_class: effect,
        resource,
        catalog_tier: tier,
        action,
        roles: editor(),
        derived_from_trust: Some(TrustLevel::TrustedUser),
        data_classes: &[],
        destination: None,
        egress_grants: grants,
        capability_projection_id: Some("cap_x"),
        sequence_guards: &[],
        sequence,
        user_id: Some("usr_x"),
        now: at(NOW),
    }
}

fn tier(value: u8) -> Tier {
    Tier::new(value).expect("tier")
}

#[test]
fn tier_zero_without_a_rule_is_allowed() {
    let policies = no_policies();
    let evaluator = PolicyEvaluator::new(&policies, &[]);
    let (effect, resource) = (class("read.internal"), selector("*"));
    let (grants, sequence) = (EgressGrantSet::default(), SequenceContext::default());
    let outcome = evaluator.evaluate(&request(&effect, &resource, tier(0), ActionFamily::Read, &grants, &sequence));
    assert_eq!(outcome.reason, PolicyReason::Allowed);
    assert!(outcome.is_allow());
}

#[test]
fn a_missing_rule_at_tier_three_denies_an_approver() {
    let policies = no_policies();
    let evaluator = PolicyEvaluator::new(&policies, &[]);
    let (effect, resource) = (class("message.send"), selector("*"));
    let (grants, sequence) = (EgressGrantSet::default(), SequenceContext::default());
    let mut req = request(&effect, &resource, tier(3), ActionFamily::ExecuteEffect { tier: 3 }, &grants, &sequence);
    req.roles = approver();
    let outcome = evaluator.evaluate(&req);
    assert!(outcome.is_deny());
    assert_eq!(outcome.reason, PolicyReason::NoMatchingPolicyRule { tier: 3 });
}

#[test]
fn an_explicit_deny_beats_a_user_always_for_an_approver() {
    let policies = policy_set(vec![rule("message.send", PolicyDecision::Deny)]);
    let user_rules = vec![user_rule("message.send", UserRuleDecision::Always)];
    let evaluator = PolicyEvaluator::new(&policies, &user_rules);
    let (effect, resource) = (class("message.send"), selector("*"));
    let (grants, sequence) = (EgressGrantSet::default(), SequenceContext::default());
    let mut req = request(&effect, &resource, tier(3), ActionFamily::ExecuteEffect { tier: 3 }, &grants, &sequence);
    req.roles = approver();
    let outcome = evaluator.evaluate(&req);
    assert!(outcome.is_deny());
    assert_eq!(outcome.reason, PolicyReason::PolicyExplicitDeny);
}

#[test]
fn user_always_moves_ask_to_allow_only_where_policy_allows_for_an_approver() {
    let policies = policy_set(vec![rule("message.send", PolicyDecision::Allow)]);
    let user_rules = vec![user_rule("message.send", UserRuleDecision::Always)];
    let evaluator = PolicyEvaluator::new(&policies, &user_rules);
    let (effect, resource) = (class("message.send"), selector("*"));
    let (grants, sequence) = (EgressGrantSet::default(), SequenceContext::default());
    let mut req = request(&effect, &resource, tier(3), ActionFamily::ExecuteEffect { tier: 3 }, &grants, &sequence);
    req.roles = approver();
    let outcome = evaluator.evaluate(&req);
    assert!(outcome.is_allow());
    assert!(outcome.standing_allow);
    assert_eq!(outcome.reason, PolicyReason::AllowedByStandingRule);
}

#[test]
fn user_always_is_rejected_on_tier_four() {
    let policies = policy_set(vec![rule("payment.execute", PolicyDecision::Allow)]);
    let user_rules = vec![user_rule("payment.execute", UserRuleDecision::Always)];
    let evaluator = PolicyEvaluator::new(&policies, &user_rules);
    let (effect, resource) = (class("payment.execute"), selector("*"));
    let (grants, sequence) = (EgressGrantSet::default(), SequenceContext::default());
    let mut req = request(&effect, &resource, tier(4), ActionFamily::ExecuteEffect { tier: 4 }, &grants, &sequence);
    req.roles = ActorRoles::new(Some(TenantRole::Admin), Some(WorkspaceRole::Admin));
    let outcome = evaluator.evaluate(&req);
    assert!(outcome.is_deny() || outcome.requires_approval(), "{outcome:?}");
    assert!(!outcome.standing_allow);
    assert_eq!(outcome.rejected_user_rules[0].reason, UserRuleRejection::TierFour);
}

#[test]
fn a_user_never_denies() {
    let policies = policy_set(vec![rule("message.send", PolicyDecision::Allow)]);
    let user_rules = vec![user_rule("message.send", UserRuleDecision::Never)];
    let evaluator = PolicyEvaluator::new(&policies, &user_rules);
    let (effect, resource) = (class("message.send"), selector("*"));
    let (grants, sequence) = (EgressGrantSet::default(), SequenceContext::default());
    let outcome = evaluator.evaluate(&request(&effect, &resource, tier(2), ActionFamily::ExecuteEffect { tier: 2 }, &grants, &sequence));
    assert!(outcome.is_deny());
}

#[test]
fn missing_projection_and_rbac_deny_before_any_rule() {
    let policies = policy_set(vec![rule("message.send", PolicyDecision::Allow)]);
    let evaluator = PolicyEvaluator::new(&policies, &[]);
    let (effect, resource) = (class("message.send"), selector("*"));
    let (grants, sequence) = (EgressGrantSet::default(), SequenceContext::default());
    let mut req = request(&effect, &resource, tier(2), ActionFamily::ExecuteEffect { tier: 2 }, &grants, &sequence);
    req.capability_projection_id = None;
    assert_eq!(evaluator.evaluate(&req).reason, PolicyReason::CapabilityProjectionMissing);

    req.capability_projection_id = Some("cap_x");
    req.roles = ActorRoles::default();
    assert_eq!(evaluator.evaluate(&req).reason, PolicyReason::Rbac(RbacFailure::NoRole));
}

#[test]
fn protected_egress_without_a_grant_denies() {
    let policies = policy_set(vec![rule("data.upload.protected", PolicyDecision::Allow)]);
    let evaluator = PolicyEvaluator::new(&policies, &[]);
    let (effect, resource) = (class("data.upload.protected"), selector("*"));
    let (grants, sequence) = (EgressGrantSet::default(), SequenceContext::default());
    let destination = EgressDestination::domain("api.example.com");
    let classes = [DataClass::parse("pii".to_string()).expect("class")];
    let mut req = request(&effect, &resource, tier(4), ActionFamily::ExecuteEffect { tier: 4 }, &grants, &sequence);
    req.roles = ActorRoles::new(Some(TenantRole::Admin), Some(WorkspaceRole::Admin));
    req.data_classes = &classes;
    req.destination = Some(&destination);
    let outcome = evaluator.evaluate(&req);
    assert!(outcome.is_deny());
    assert_eq!(outcome.reason, PolicyReason::Guard(GuardFailure::ProtectedEgressDenied));
}

#[test]
fn a_failed_sequence_guard_denies() {
    let policies = policy_set(vec![rule("record.update", PolicyDecision::Allow)]);
    let evaluator = PolicyEvaluator::new(&policies, &[]);
    let (effect, resource) = (class("record.update"), selector("*"));
    let grants = EgressGrantSet::default();
    let sequence = SequenceContext { settled_effect_ids: vec!["eff_a".to_string()], ..SequenceContext::default() };
    let guards = [SequenceGuard::ReservationBeforeSettlement];
    let mut req = request(&effect, &resource, tier(2), ActionFamily::ExecuteEffect { tier: 2 }, &grants, &sequence);
    req.sequence_guards = &guards;
    let outcome = evaluator.evaluate(&req);
    assert!(outcome.is_deny());
    assert_eq!(
        outcome.reason,
        PolicyReason::Guard(GuardFailure::SequenceViolation(SequenceGuard::ReservationBeforeSettlement))
    );
}

#[test]
fn untrusted_derivation_escalates_and_forbids_always() {
    let policies = policy_set(vec![rule("message.send", PolicyDecision::Allow)]);
    let user_rules = vec![user_rule("message.send", UserRuleDecision::Always)];
    let evaluator = PolicyEvaluator::new(&policies, &user_rules);
    let (effect, resource) = (class("message.send"), selector("*"));
    let (grants, sequence) = (EgressGrantSet::default(), SequenceContext::default());
    let mut req = request(&effect, &resource, tier(2), ActionFamily::ExecuteEffect { tier: 2 }, &grants, &sequence);
    req.derived_from_trust = Some(TrustLevel::UntrustedExternal);
    let outcome = evaluator.evaluate(&req);
    assert!(outcome.escalated);
    assert_eq!(outcome.effective_tier.get(), 3);
    assert!(outcome.requires_approval());
    assert!(!outcome.standing_allow);
    assert_eq!(outcome.rejected_user_rules[0].reason, UserRuleRejection::Escalated);
}

#[test]
fn absent_trust_fails_closed_to_untrusted() {
    let policies = policy_set(vec![rule("message.send", PolicyDecision::Allow)]);
    let evaluator = PolicyEvaluator::new(&policies, &[]);
    let (effect, resource) = (class("message.send"), selector("*"));
    let (grants, sequence) = (EgressGrantSet::default(), SequenceContext::default());
    let mut req = request(&effect, &resource, tier(2), ActionFamily::ExecuteEffect { tier: 2 }, &grants, &sequence);
    req.derived_from_trust = None;
    let outcome = evaluator.evaluate(&req);
    assert!(outcome.escalated);
    assert_eq!(outcome.effective_tier.get(), 3);
}

#[test]
fn tier_four_is_never_allowed_even_by_an_allow_rule() {
    let policies = policy_set(vec![rule("payment.execute", PolicyDecision::Allow)]);
    let evaluator = PolicyEvaluator::new(&policies, &[]);
    let (effect, resource) = (class("payment.execute"), selector("*"));
    let (grants, sequence) = (EgressGrantSet::default(), SequenceContext::default());
    let mut req = request(&effect, &resource, tier(4), ActionFamily::ExecuteEffect { tier: 4 }, &grants, &sequence);
    req.roles = ActorRoles::new(Some(TenantRole::Admin), Some(WorkspaceRole::Admin));
    let outcome = evaluator.evaluate(&req);
    assert!(!outcome.is_allow());
    assert!(outcome.requires_approval());
    assert_eq!(outcome.reason, PolicyReason::ApprovalRequired);
}

#[test]
fn an_editor_cannot_execute_a_tier_three_effect() {
    let policies = policy_set(vec![rule("message.send", PolicyDecision::Allow)]);
    let evaluator = PolicyEvaluator::new(&policies, &[]);
    let (effect, resource) = (class("message.send"), selector("*"));
    let (grants, sequence) = (EgressGrantSet::default(), SequenceContext::default());
    let outcome = evaluator.evaluate(&request(&effect, &resource, tier(3), ActionFamily::ExecuteEffect { tier: 3 }, &grants, &sequence));
    assert!(outcome.is_deny());
    assert_eq!(outcome.reason, PolicyReason::Rbac(RbacFailure::InsufficientRole));
}

#[test]
fn digest_is_stable_for_identical_inputs_and_changes_with_params() {
    let policies = policy_set(vec![rule("message.send", PolicyDecision::Allow)]);
    let evaluator = PolicyEvaluator::new(&policies, &[]);
    let (effect, resource) = (class("message.send"), selector("*"));
    let (grants, sequence) = (EgressGrantSet::default(), SequenceContext::default());
    let mut first = request(&effect, &resource, tier(2), ActionFamily::ExecuteEffect { tier: 2 }, &grants, &sequence);
    first.now = at(NOW);
    let mut second = first;
    assert_eq!(evaluator.evaluate(&first).inputs_digest, evaluator.evaluate(&second).inputs_digest);
    second.now = at(NOW + 3600);
    assert_eq!(
        evaluator.evaluate(&first).inputs_digest,
        evaluator.evaluate(&second).inputs_digest,
        "time-dependent matching is captured by evaluation, not the raw clock"
    );
    let other_effect = class("message.draft");
    let third = request(&other_effect, &resource, tier(2), ActionFamily::ExecuteEffect { tier: 2 }, &grants, &sequence);
    assert_ne!(evaluator.evaluate(&first).inputs_digest, evaluator.evaluate(&third).inputs_digest);
}

fn object(entries: Vec<(&str, serde_json::Value)>) -> serde_json::Value {
    let mut map = serde_json::Map::new();
    for (key, value) in entries {
        map.insert(key.to_string(), value);
    }
    serde_json::Value::Object(map)
}

fn text(value: &str) -> serde_json::Value {
    serde_json::Value::String(value.to_string())
}

fn texts(values: &[&str]) -> serde_json::Value {
    serde_json::Value::Array(values.iter().map(|v| text(v)).collect())
}

#[test]
fn the_inputs_text_is_the_canonical_json_of_the_inputs() {
    let policies = policy_set(vec![rule("message.send", PolicyDecision::Allow)]);
    let user_rules = vec![user_rule("message.send", UserRuleDecision::Ask)];
    let evaluator = PolicyEvaluator::new(&policies, &user_rules);
    let (effect, resource) = (class("message.send"), selector("api.\"quoted\"\n.example"));
    let grants = EgressGrantSet::new(vec![EgressDestination::domain("api.example.com")]);
    let sequence = SequenceContext {
        granted_approval_ids: vec!["apr_1".to_string()],
        used_approval_ids: vec!["apr_1".to_string(), "apr_2".to_string()],
        ..SequenceContext::default()
    };
    let classes = [DataClass::parse("pii".to_string()).expect("class")];
    let destination = EgressDestination::connector("cnx_1/chan");
    let guards = [SequenceGuard::ApprovalGrantedBeforeUse];
    let mut req = request(&effect, &resource, tier(2), ActionFamily::ExecuteEffect { tier: 2 }, &grants, &sequence);
    req.derived_from_trust = Some(TrustLevel::UntrustedExternal);
    req.data_classes = &classes;
    req.destination = Some(&destination);
    req.sequence_guards = &guards;
    let expected = object(vec![
        ("effect_class", text("message.send")),
        ("resource", object(vec![("kind", text("domain")), ("selector", text("api.\"quoted\"\n.example"))])),
        ("catalog_tier", serde_json::Value::from(2u8)),
        ("effective_tier", serde_json::Value::from(3u8)),
        ("escalated", serde_json::Value::Bool(true)),
        ("trust", text("UNTRUSTED_EXTERNAL")),
        ("action", text("ExecuteEffect { tier: 2 }")),
        ("roles", object(vec![("tenant", text("member")), ("workspace", text("editor"))])),
        ("data_classes", texts(&["pii"])),
        ("destination", object(vec![("kind", text("connector")), ("value", text("cnx_1/chan"))])),
        ("egress_grants", serde_json::Value::Array(vec![object(vec![("kind", text("domain")), ("value", text("api.example.com"))])])),
        ("capability_projection_id", text("cap_x")),
        ("sequence_guards", texts(&["approval_granted_before_use"])),
        (
            "sequence",
            object(vec![
                ("granted_approvals", texts(&["apr_1"])),
                ("used_approvals", texts(&["apr_1", "apr_2"])),
                ("reserved_effects", texts(&[])),
                ("settled_effects", texts(&[])),
            ]),
        ),
        (
            "policies",
            serde_json::Value::Array(vec![object(vec![
                ("id", text("pol_t")),
                ("version", serde_json::Value::from(1i32)),
                ("scope", text("tenant")),
            ])]),
        ),
        ("user_id", text("usr_x")),
        (
            "user_rules",
            serde_json::Value::Array(vec![object(vec![
                ("id", text("rule_1")),
                ("effect_class", text("message.send")),
                ("decision", text("ask")),
            ])]),
        ),
    ])
    .to_string();
    let outcome = evaluator.evaluate(&req);
    assert_eq!(outcome.inputs_digest, Digest::of(expected.as_bytes()));
}
