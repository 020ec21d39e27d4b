//! The policy decision pipeline.
//!
//! Evaluation order, and it is deliberately strict:
//!
//! 1. RBAC: the actor's role must permit the action family.
//! 2. Capability projection: a proposal without a resolved projection has no authority
//!    and is denied.
//! 3. Content-trust escalation: an `UNTRUSTED_EXTERNAL` derivation raises the effective
//!    tier and forbids `always`.
//! 4. Privacy guard: protected data classes and untrusted content may not move to a
//!    destination outside the egress grant set.
//! 5. Sequence guards: an approval cannot be used before it is granted, and a settlement
//!    cannot precede its reservation.
//! 6. Policy rules: tenant policy then workspace policy; the most restrictive matching
//!    decision wins, and a missing rule at tier ≥ 1 denies.
//! 7. Receipt requirement: tier ≥ 3 requires an approval receipt unless a standing rule
//!    applies; tier 4 never accepts `always`.
//! 8. User rules: evaluated last; they may only narrow, or move `ask → always` where
//!    policy permits and never on tier 4 or an escalated proposal.
//!
//! Any missing security input is a deny with a typed reason. No path turns an absent
//! input into an allow.

use vstd::prelude::*;
use crate::text::{owned, str_eq};
use crate::time::Timestamp;
use crate::crypto::{Digest, hex_text, sha256_hash};
use crate::policy::inputs::{inputs_digest, inputs_material};
use crate::policy::capability::{
    Decision, EffectClass, PolicyDecision, ResourceSelector, Tier, UserRuleDecision,
};
use crate::policy::escalation::{
    Escalation, TrustLevel, escalate, escalated_tier, escalates, FAIL_CLOSED_TRUST,
};
use crate::policy::guards::{
    DataClass, EgressDestination, EgressGrantSet, GuardFailure, GuardOutcome, PrivacyInputs,
    SequenceContext, SequenceGuard, check_privacy, check_sequence, destination_of,
    guard_failure_name, privacy_outcome, sequence_outcome,
};
use crate::policy::rbac::{ActionFamily, ActorRoles, RbacFailure, check, rbac_decision, rbac_failure_name};
use crate::policy::rules::{
    PolicyRule, PolicySet, RuleContext, UserRule, deref_all, matching, user_rule_applies,
};

verus! {

/// Why a user rule's `always` decision was ignored.
#[derive(Debug, Clone, Copy, PartialEq, Eq, Structural)]
pub enum UserRuleRejection {
    /// Tier 4 never accepts `always`.
    TierFour,
    /// An escalated proposal never accepts `always`.
    Escalated,
    /// Policy did not explicitly allow the effect, so `ask` may not widen.
    NotPermittedByPolicy,
}

/// The canonical reason string of a user-rule rejection.
pub open spec fn rejection_name(r: UserRuleRejection) -> Seq<char> {
    match r {
        UserRuleRejection::TierFour => "user_rule_tier_four_always_rejected"@,
        UserRuleRejection::Escalated => "user_rule_escalated_always_rejected"@,
        UserRuleRejection::NotPermittedByPolicy => "user_rule_always_not_permitted"@,
    }
}

impl UserRuleRejection {
    /// The canonical reason string.
    pub fn as_str(self) -> (s: &'static str)
        ensures
            s@ == rejection_name(self),
    {
        match self {
            UserRuleRejection::TierFour => "user_rule_tier_four_always_rejected",
            UserRuleRejection::Escalated => "user_rule_escalated_always_rejected",
            UserRuleRejection::NotPermittedByPolicy => "user_rule_always_not_permitted",
        }
    }
}

/// A recorded rejection of a widening user rule.
#[derive(Debug, Clone, PartialEq, Eq)]
pub struct RejectedUserRule {
    /// The `rule_…` id that was ignored.
    pub rule_id: String,
    /// Why it was ignored.
    pub reason: UserRuleRejection,
}

/// The typed reason behind a policy decision.
#[derive(Debug, Clone, PartialEq, Eq)]
pub enum PolicyReason {
    /// A matching rule permits the effect and no receipt is required.
    Allowed,
    /// A standing user rule permits the effect without a receipt.
    AllowedByStandingRule,
    /// Policy requires an approval receipt (tier ≥ 3, or an `ask` rule).
    ApprovalRequired,
    /// RBAC refused the action family.
    Rbac(RbacFailure),
    /// No capability projection was supplied, so there is no authority to evaluate.
    CapabilityProjectionMissing,
    /// A matching policy rule explicitly denies.
    PolicyExplicitDeny,
    /// No policy rule matched and the effective tier is ≥ 1: a policy gap denies.
    NoMatchingPolicyRule {
        /// Effective tier that had no rule.
        tier: u8,
    },
    /// A privacy or sequence guard denied.
    Guard(GuardFailure),
    /// A matching user rule is `never`.
    UserRuleNever {
        /// The `rule_…` id.
        rule_id: String,
    },
}

/// The canonical reason string of a policy reason.
pub open spec fn reason_name(r: PolicyReason) -> Seq<char> {
    match r {
        PolicyReason::Allowed => "allowed"@,
        PolicyReason::AllowedByStandingRule => "allowed_by_standing_rule"@,
        PolicyReason::ApprovalRequired => "approval_required"@,
        PolicyReason::Rbac(f) => rbac_failure_name(f),
        PolicyReason::CapabilityProjectionMissing => "capability_projection_missing"@,
        PolicyReason::PolicyExplicitDeny => "policy_explicit_deny"@,
        PolicyReason::NoMatchingPolicyRule { .. } => "no_matching_policy_rule"@,
        PolicyReason::Guard(f) => guard_failure_name(f),
        PolicyReason::UserRuleNever { .. } => "user_rule_never"@,
    }
}

impl PolicyReason {
    /// The canonical reason string recorded on the decision row.
    pub fn as_str(&self) -> (s: &'static str)
        ensures
            s@ == reason_name(*self),
    {
        match self {
            PolicyReason::Allowed => "allowed",
            PolicyReason::AllowedByStandingRule => "allowed_by_standing_rule",
            PolicyReason::ApprovalRequired => "approval_required",
            PolicyReason::Rbac(failure) => failure.as_str(),
            PolicyReason::CapabilityProjectionMissing => "capability_projection_missing",
            PolicyReason::PolicyExplicitDeny => "policy_explicit_deny",
            PolicyReason::NoMatchingPolicyRule { .. } => "no_matching_policy_rule",
            PolicyReason::Guard(failure) => failure.as_str(),
            PolicyReason::UserRuleNever { .. } => "user_rule_never",
        }
    }
}

/// The complete input to one policy evaluation.
#[derive(Debug, Clone, Copy)]
pub struct EvaluationRequest<'a> {
    /// The proposed effect class.
    pub effect_class: &'a EffectClass,
    /// The exact resource of the proposal.
    pub resource: &'a ResourceSelector,
    /// The catalog tier of the effect class.
    pub catalog_tier: Tier,
    /// The command/action family the proposal belongs to.
    pub action: ActionFamily,
    /// The actor's roles.
    pub roles: ActorRoles,
    /// `derived_from_trust`; `None` fails closed to `UNTRUSTED_EXTERNAL`.
    pub derived_from_trust: Option<TrustLevel>,
    /// Data classes carried by the proposal.
    pub data_classes: &'a [DataClass],
    /// Destination the proposal would move data to, when any.
    pub destination: Option<&'a EgressDestination>,
    /// Destinations already inside the egress grant set.
    pub egress_grants: &'a EgressGrantSet,
    /// The resolved capability projection id; `None` denies.
    pub capability_projection_id: Option<&'a str>,
    /// Sequence guards the proposal must satisfy.
    pub sequence_guards: &'a [SequenceGuard],
    /// Durable sequence facts.
    pub sequence: &'a SequenceContext,
    /// The acting user, for user-rule matching; `None` applies no user rules.
    pub user_id: Option<&'a str>,
    /// When the decision is made.
    pub now: Timestamp,
}

/// The outcome of one policy evaluation.
#[derive(Debug, Clone, PartialEq, Eq)]
pub struct PolicyOutcome {
    /// The decision (`allow | ask | deny`).
    pub decision: Decision,
    /// The typed reason.
    pub reason: PolicyReason,
    /// The catalog tier of the effect class.
    pub catalog_tier: Tier,
    /// The effective tier after content-trust escalation.
    pub effective_tier: Tier,
    /// Whether the untrusted derivation escalated the tier.
    pub escalated: bool,
    /// Whether a receipt is required for dispatch.
    pub approval_required: bool,
    /// Whether a standing user rule supplied the authority.
    pub standing_allow: bool,
    /// Widening user rules that were ignored.
    pub rejected_user_rules: Vec<RejectedUserRule>,
    /// SHA-256 over the exact evaluation inputs.
    pub inputs_digest: Digest,
}

/// The public error code a decision maps to.
pub open spec fn decision_code(d: Decision) -> Seq<char> {
    match d {
        Decision::Allow => "OK"@,
        Decision::Ask => "APPROVAL_REQUIRED"@,
        Decision::Deny => "POLICY_DENIED"@,
    }
}

impl PolicyOutcome {
    /// Whether the decision permits dispatch without a receipt.
    pub fn is_allow(&self) -> (r: bool)
        ensures
            r == (self.decision == Decision::Allow),
    {
        self.decision == Decision::Allow
    }

    /// Whether the proposal requires an approval receipt.
    pub fn requires_approval(&self) -> (r: bool)
        ensures
            r == (self.decision == Decision::Ask),
    {
        self.decision == Decision::Ask
    }

    /// Whether the proposal is refused.
    pub fn is_deny(&self) -> (r: bool)
        ensures
            r == (self.decision == Decision::Deny),
    {
        self.decision == Decision::Deny
    }

    /// The public error code a caller should return.
    pub fn code(&self) -> (s: &'static str)
        ensures
            s@ == decision_code(self.decision),
    {
        match self.decision {
            Decision::Allow => "OK",
            Decision::Ask => "APPROVAL_REQUIRED",
            Decision::Deny => "POLICY_DENIED",
        }
    }
}

/// The derivation used: an absent one fails closed to untrusted external.
pub open spec fn eval_trust(req: EvaluationRequest) -> TrustLevel {
    match req.derived_from_trust {
        Some(t) => t,
        None => TrustLevel::UntrustedExternal,
    }
}

/// The effective tier after escalation.
pub open spec fn eval_tier(req: EvaluationRequest) -> nat {
    escalated_tier(req.catalog_tier@, eval_trust(req))
}

/// Whether the derivation escalated the tier.
pub open spec fn eval_escalated(req: EvaluationRequest) -> bool {
    escalates(req.catalog_tier@, eval_trust(req))
}

/// The facts policy-rule conditions are checked against.
pub open spec fn eval_context<'a>(req: EvaluationRequest<'a>) -> RuleContext<'a> {
    RuleContext {
        trust: eval_trust(req),
        effective_tier: Tier::from_nat(eval_tier(req)),
        data_classes: req.data_classes,
        now: req.now,
        sequence: req.sequence,
    }
}

/// The first of RBAC, capability projection, privacy guard and sequence guards that
/// refuses the proposal.
pub open spec fn gate_refusal(req: EvaluationRequest) -> Option<PolicyReason> {
    match rbac_decision(req.roles, req.action) {
        Err(f) => Some(PolicyReason::Rbac(f)),
        Ok(_) => if req.capability_projection_id is None {
            Some(PolicyReason::CapabilityProjectionMissing)
        } else {
            match privacy_outcome(
                req.data_classes@,
                destination_of(req.destination),
                req.egress_grants@,
                eval_trust(req) == TrustLevel::UntrustedExternal,
            ) {
                GuardOutcome::Denied(f) => Some(PolicyReason::Guard(f)),
                GuardOutcome::Permitted => match sequence_outcome(req.sequence_guards@, *req.sequence) {
                    GuardOutcome::Denied(f) => Some(PolicyReason::Guard(f)),
                    GuardOutcome::Permitted => None,
                },
            }
        },
    }
}

/// The policy rules that govern the proposal.
pub open spec fn eval_matching(policies: PolicySet, req: EvaluationRequest) -> Seq<PolicyRule> {
    matching(policies, *req.effect_class, *req.resource, eval_context(req))
}

/// Whether some rule of `m` has decision `d`.
pub open spec fn has_decision(m: Seq<PolicyRule>, d: PolicyDecision) -> bool {
    exists|i: int| 0 <= i < m.len() && (#[trigger] m[i]).decision == d
}

/// The decision of the matching policy rules at the effective tier: any deny denies, no
/// rule at tier ≥ 1 denies, any ask asks, and an allow at tier ≥ 3 still asks.
pub open spec fn policy_verdict(m: Seq<PolicyRule>, tier: nat) -> Result<Decision, PolicyReason> {
    if has_decision(m, PolicyDecision::Deny) {
        Err(PolicyReason::PolicyExplicitDeny)
    } else if m.len() == 0 {
        if tier == 0 {
            Ok(Decision::Allow)
        } else {
            Err(PolicyReason::NoMatchingPolicyRule { tier: tier as u8 })
        }
    } else if has_decision(m, PolicyDecision::Ask) || tier >= 3 {
        Ok(Decision::Ask)
    } else {
        Ok(Decision::Allow)
    }
}

/// Whether policy explicitly allows the effect: some rule matched and every matching
/// rule allows.
pub open spec fn policy_allows_always(m: Seq<PolicyRule>) -> bool {
    m.len() > 0 && !has_decision(m, PolicyDecision::Deny) && !has_decision(m, PolicyDecision::Ask)
}

/// The predicate "the user rule applies to this proposal for `user_id`".
pub open spec fn user_rule_pred(
    user_id: Seq<char>,
    effect_class: EffectClass,
    resource: ResourceSelector,
    now: Timestamp,
) -> spec_fn(UserRule) -> bool {
    |rule: UserRule| user_rule_applies(rule, user_id, effect_class, resource, now)
}

/// The user rules that apply to the proposal, in order; none without an acting user.
pub open spec fn applicable_rules(rules: Seq<UserRule>, req: EvaluationRequest) -> Seq<UserRule> {
    match req.user_id {
        Some(u) => rules.filter(user_rule_pred(u@, *req.effect_class, *req.resource, req.now)),
        None => Seq::empty(),
    }
}

/// Whether some rule of `app` has decision `d`.
pub open spec fn has_user_decision(app: Seq<UserRule>, d: UserRuleDecision) -> bool {
    exists|i: int| 0 <= i < app.len() && (#[trigger] app[i]).decision == d
}

/// Whether `i` is the first `never` rule of `app`.
pub open spec fn first_never(app: Seq<UserRule>, i: int) -> bool {
    &&& 0 <= i < app.len()
    &&& app[i].decision == UserRuleDecision::Never
    &&& forall|j: int| 0 <= j < i ==> (#[trigger] app[j]).decision != UserRuleDecision::Never
}

/// Why an `always` user rule is ignored, if it is.
pub open spec fn always_rejection(tier: nat, escalated: bool, allows_always: bool) -> Option<UserRuleRejection> {
    if tier == 4 {
        Some(UserRuleRejection::TierFour)
    } else if escalated {
        Some(UserRuleRejection::Escalated)
    } else if !allows_always {
        Some(UserRuleRejection::NotPermittedByPolicy)
    } else {
        None
    }
}

/// The predicate "the user rule is `always`".
pub open spec fn is_always() -> spec_fn(UserRule) -> bool {
    |rule: UserRule| rule.decision == UserRuleDecision::Always
}

/// Whether a standing `always` rule supplies the authority.
pub open spec fn standing(policies: PolicySet, rules: Seq<UserRule>, req: EvaluationRequest) -> bool {
    &&& has_user_decision(applicable_rules(rules, req), UserRuleDecision::Always)
    &&& always_rejection(eval_tier(req), eval_escalated(req), policy_allows_always(eval_matching(policies, req))) is None
}

/// The decision the pipeline reaches.
pub open spec fn expected_decision(policies: PolicySet, rules: Seq<UserRule>, req: EvaluationRequest) -> Decision {
    if gate_refusal(req) is Some {
        Decision::Deny
    } else {
        match policy_verdict(eval_matching(policies, req), eval_tier(req)) {
            Err(_) => Decision::Deny,
            Ok(d) => {
                let app = applicable_rules(rules, req);
                if has_user_decision(app, UserRuleDecision::Never) {
                    Decision::Deny
                } else if standing(policies, rules, req) {
                    Decision::Allow
                } else if has_user_decision(app, UserRuleDecision::Ask) {
                    Decision::Ask
                } else {
                    d
                }
            },
        }
    }
}

/// Whether `reason` is the reason the pipeline gives.
pub open spec fn expected_reason(
    policies: PolicySet,
    rules: Seq<UserRule>,
    req: EvaluationRequest,
    reason: PolicyReason,
) -> bool {
    match gate_refusal(req) {
        Some(r) => reason == r,
        None => match policy_verdict(eval_matching(policies, req), eval_tier(req)) {
            Err(r) => reason == r,
            Ok(d) => {
                let app = applicable_rules(rules, req);
                if has_user_decision(app, UserRuleDecision::Never) {
                    reason matches PolicyReason::UserRuleNever { rule_id }
                        && exists|i: int| first_never(app, i) && rule_id@ == app[i].id@
                } else if standing(policies, rules, req) {
                    reason == PolicyReason::AllowedByStandingRule
                } else if has_user_decision(app, UserRuleDecision::Ask) || d == Decision::Ask {
                    reason == PolicyReason::ApprovalRequired
                } else {
                    reason == PolicyReason::Allowed
                }
            },
        },
    }
}

/// Whether the pipeline reaches the user-rule stage with no `never` rule.
pub open spec fn reaches_widening(policies: PolicySet, rules: Seq<UserRule>, req: EvaluationRequest) -> bool {
    &&& gate_refusal(req) is None
    &&& policy_verdict(eval_matching(policies, req), eval_tier(req)) is Ok
    &&& !has_user_decision(applicable_rules(rules, req), UserRuleDecision::Never)
}

/// The `always` rules the pipeline records as ignored, by id, with why.
pub open spec fn expected_rejections(
    policies: PolicySet,
    rules: Seq<UserRule>,
    req: EvaluationRequest,
) -> Seq<(Seq<char>, UserRuleRejection)> {
    if !reaches_widening(policies, rules, req) {
        Seq::empty()
    } else {
        match always_rejection(eval_tier(req), eval_escalated(req), policy_allows_always(eval_matching(policies, req))) {
            Some(why) => applicable_rules(rules, req).filter(is_always()).map_values(
                |r: UserRule| (r.id@, why),
            ),
            None => Seq::empty(),
        }
    }
}

/// The recorded rejections by id and reason.
pub open spec fn rejection_views(v: Seq<RejectedUserRule>) -> Seq<(Seq<char>, UserRuleRejection)> {
    v.map_values(|r: RejectedUserRule| (r.rule_id@, r.reason))
}

/// An explicit policy deny cannot be undone by any user rule.
pub proof fn law_policy_deny_beats_user_rules(policies: PolicySet, rules: Seq<UserRule>, req: EvaluationRequest)
    requires
        has_decision(eval_matching(policies, req), PolicyDecision::Deny),
    ensures
        expected_decision(policies, rules, req) == Decision::Deny,
{
}

/// A tier-4 effect is never allowed without a receipt.
pub proof fn law_tier_four_is_never_allowed(policies: PolicySet, rules: Seq<UserRule>, req: EvaluationRequest)
    requires
        eval_tier(req) == 4,
    ensures
        expected_decision(policies, rules, req) != Decision::Allow,
        !standing(policies, rules, req),
{
}

/// At tier 3 and above only a standing user rule can allow without a receipt, and a
/// standing rule never applies to an escalated proposal or where policy does not
/// explicitly allow the effect.
pub proof fn law_receipt_required_from_tier_three(policies: PolicySet, rules: Seq<UserRule>, req: EvaluationRequest)
    requires
        req.catalog_tier@ <= 4,
        eval_tier(req) >= 3,
        expected_decision(policies, rules, req) == Decision::Allow,
    ensures
        standing(policies, rules, req),
        !eval_escalated(req),
        eval_tier(req) < 4,
        policy_allows_always(eval_matching(policies, req)),
{
}

/// User rules only narrow: an allow comes either from policy alone or from a standing
/// rule where every matching policy rule allows.
pub proof fn law_user_rules_only_narrow(policies: PolicySet, rules: Seq<UserRule>, req: EvaluationRequest)
    requires
        expected_decision(policies, rules, req) == Decision::Allow,
    ensures
        gate_refusal(req) is None,
        policy_verdict(eval_matching(policies, req), eval_tier(req)) == Ok::<Decision, PolicyReason>(Decision::Allow)
            || (standing(policies, rules, req) && policy_allows_always(eval_matching(policies, req))),
        !has_user_decision(applicable_rules(rules, req), UserRuleDecision::Never),
{
}

/// With no matching rule, anything above tier 0 is denied as a policy gap.
pub proof fn law_policy_gap_denies(policies: PolicySet, rules: Seq<UserRule>, req: EvaluationRequest)
    requires
        eval_matching(policies, req).len() == 0,
        eval_tier(req) >= 1,
    ensures
        expected_decision(policies, rules, req) == Decision::Deny,
{
}

/// A proposal without a capability projection, or refused by RBAC, is denied.
pub proof fn law_missing_authority_denies(policies: PolicySet, rules: Seq<UserRule>, req: EvaluationRequest)
    requires
        req.capability_projection_id is None || rbac_decision(req.roles, req.action) is Err,
    ensures
        expected_decision(policies, rules, req) == Decision::Deny,
        gate_refusal(req) is Some,
{
}

/// An absent derivation is evaluated exactly as an untrusted external one.
pub proof fn law_absent_trust_fails_closed(policies: PolicySet, rules: Seq<UserRule>, req: EvaluationRequest)
    requires
        req.derived_from_trust is None,
    ensures
        ({
            let untrusted = EvaluationRequest { derived_from_trust: Some(TrustLevel::UntrustedExternal), ..req };
            &&& expected_decision(policies, rules, req) == expected_decision(policies, rules, untrusted)
            &&& eval_tier(req) == eval_tier(untrusted)
            &&& eval_escalated(req) == eval_escalated(untrusted)
        }),
{
    let untrusted = EvaluationRequest { derived_from_trust: Some(TrustLevel::UntrustedExternal), ..req };
    assert(eval_context(req) == eval_context(untrusted));
}

/// A `never` user rule that applies denies, whatever policy allows.
pub proof fn law_never_rule_denies(policies: PolicySet, rules: Seq<UserRule>, req: EvaluationRequest)
    requires
        has_user_decision(applicable_rules(rules, req), UserRuleDecision::Never),
    ensures
        expected_decision(policies, rules, req) == Decision::Deny,
{
}

/// A tenant/workspace policy set plus the user rules evaluated after it.
#[derive(Debug, Clone, Copy)]
pub struct PolicyEvaluator<'a> {
    /// The effective policies, tenant first.
    pub policies: &'a PolicySet,
    /// The user rules in scope.
    pub user_rules: &'a [UserRule],
}

/// Whether some matching rule has decision `d`.
fn any_decision(rules: &Vec<&PolicyRule>, d: PolicyDecision) -> (r: bool)
    ensures
        r == has_decision(deref_all(rules@), d),
{
    let mut i: usize = 0;
    while i < rules.len()
        invariant
            i <= rules@.len(),
            forall|j: int| 0 <= j < i ==> (#[trigger] deref_all(rules@)[j]).decision != d,
        decreases rules@.len() - i,
    {
        proof {
            assert(deref_all(rules@)[i as int] == *rules@[i as int]);
        }
        if rules[i].decision == d {
            return true;
        }
        i = i + 1;
    }
    false
}

/// Whether some applicable user rule has decision `d`.
fn any_user_decision(rules: &Vec<&UserRule>, d: UserRuleDecision) -> (r: bool)
    ensures
        r == has_user_decision(deref_all(rules@), d),
{
    let mut i: usize = 0;
    while i < rules.len()
        invariant
            i <= rules@.len(),
            forall|j: int| 0 <= j < i ==> (#[trigger] deref_all(rules@)[j]).decision != d,
        decreases rules@.len() - i,
    {
        proof {
            assert(deref_all(rules@)[i as int] == *rules@[i as int]);
        }
        if rules[i].decision == d {
            return true;
        }
        i = i + 1;
    }
    false
}

/// The position of the first `never` rule, if any.
fn find_never(rules: &Vec<&UserRule>) -> (r: Option<usize>)
    ensures
        match r {
            Some(i) => first_never(deref_all(rules@), i as int),
            None => !has_user_decision(deref_all(rules@), UserRuleDecision::Never),
        },
{
    let mut i: usize = 0;
    while i < rules.len()
        invariant
            i <= rules@.len(),
            forall|j: int| 0 <= j < i ==> (#[trigger] deref_all(rules@)[j]).decision != UserRuleDecision::Never,
        decreases rules@.len() - i,
    {
        proof {
            assert(deref_all(rules@)[i as int] == *rules@[i as int]);
        }
        if rules[i].decision == UserRuleDecision::Never {
            return Some(i);
        }
        i = i + 1;
    }
    None
}

/// The user rules of `rules` that apply for `user_id`, in order.
fn applicable_for<'r>(
    rules: &'r [UserRule],
    user_id: &str,
    effect_class: &EffectClass,
    resource: &ResourceSelector,
    now: Timestamp,
) -> (r: Vec<&'r UserRule>)
    ensures
        deref_all(r@) == rules@.filter(user_rule_pred(user_id@, *effect_class, *resource, now)),
{
    let ghost pred = user_rule_pred(user_id@, *effect_class, *resource, now);
    let mut out: Vec<&UserRule> = Vec::new();
    let mut i: usize = 0;
    proof {
        reveal(Seq::filter);
        assert(rules@.take(0).filter(pred) =~= Seq::<UserRule>::empty());
        assert(deref_all(out@) =~= rules@.take(0).filter(pred));
    }
    while i < rules.len()
        invariant
            i <= rules@.len(),
            pred == user_rule_pred(user_id@, *effect_class, *resource, now),
            deref_all(out@) == rules@.take(i as int).filter(pred),
        decreases rules@.len() - i,
    {
        let rule = &rules[i];
        let keep = rule.applies(user_id, effect_class, resource, now);
        let ghost before = out@;
        if keep {
            out.push(rule);
        }
        proof {
            reveal(Seq::filter);
            assert(rules@.take(i + 1).drop_last() =~= rules@.take(i as int));
            assert(rules@.take(i + 1).last() == rules@[i as int]);
            if keep {
                assert(deref_all(out@) =~= deref_all(before).push(*rule));
            } else {
                assert(deref_all(out@) =~= deref_all(before));
            }
        }
        i = i + 1;
    }
    proof {
        assert(rules@.take(rules@.len() as int) =~= rules@);
    }
    out
}

/// Record every `always` rule of `app` as ignored for `why`.
fn reject_always(app: &Vec<&UserRule>, why: UserRuleRejection) -> (r: Vec<RejectedUserRule>)
    ensures
        rejection_views(r@) == deref_all(app@).filter(is_always()).map_values(
            |x: UserRule| (x.id@, why),
        ),
{
    let ghost f = |x: UserRule| (x.id@, why);
    let ghost all = deref_all(app@);
    let mut out: Vec<RejectedUserRule> = Vec::new();
    let mut i: usize = 0;
    proof {
        reveal(Seq::filter);
        assert(all.take(0).filter(is_always()) =~= Seq::<UserRule>::empty());
        assert(rejection_views(out@) =~= all.take(0).filter(is_always()).map_values(f));
    }
    while i < app.len()
        invariant
            i <= app@.len(),
            all == deref_all(app@),
            f == (|x: UserRule| (x.id@, why)),
            rejection_views(out@) == all.take(i as int).filter(is_always()).map_values(f),
        decreases app@.len() - i,
    {
        let rule = app[i];
        let ghost before = out@;
        proof {
            assert(all[i as int] == *rule);
        }
        if rule.decision == UserRuleDecision::Always {
            out.push(RejectedUserRule { rule_id: owned(rule.id.as_str()), reason: why });
        }
        proof {
            reveal(Seq::filter);
            assert(all.take(i + 1).drop_last() =~= all.take(i as int));
            assert(all.take(i + 1).last() == all[i as int]);
            if rule.decision == UserRuleDecision::Always {
                assert(all.take(i + 1).filter(is_always()) == all.take(i as int).filter(is_always()).push(
                    *rule,
                ));
                assert(rejection_views(out@) =~= rejection_views(before).push((rule.id@, why)));
                assert(all.take(i + 1).filter(is_always()).map_values(f) =~= all.take(i as int).filter(
                    is_always(),
                ).map_values(f).push(f(*rule)));
            } else {
                assert(rejection_views(out@) =~= rejection_views(before));
            }
        }
        i = i + 1;
    }
    proof {
        assert(all.take(all.len() as int) =~= all);
    }
    out
}

impl<'a> PolicyEvaluator<'a> {
    /// Build an evaluator.
    pub fn new(policies: &'a PolicySet, user_rules: &'a [UserRule]) -> (r: PolicyEvaluator<'a>)
        ensures
            *r.policies == *policies,
            r.user_rules@ == user_rules@,
    {
        PolicyEvaluator { policies, user_rules }
    }

    /// Evaluate one proposal exactly as documented at the module head, recording the
    /// digest of its exact inputs on the outcome.
    pub fn evaluate(&self, request: &EvaluationRequest<'_>) -> (r: PolicyOutcome)
        ensures
            r.decision == expected_decision(*self.policies, self.user_rules@, *request),
            expected_reason(*self.policies, self.user_rules@, *request, r.reason),
            r.catalog_tier == request.catalog_tier,
            r.effective_tier@ == eval_tier(*request),
            r.escalated == eval_escalated(*request),
            r.approval_required == (r.decision == Decision::Ask),
            r.standing_allow == (reaches_widening(*self.policies, self.user_rules@, *request)
                && standing(*self.policies, self.user_rules@, *request)),
            rejection_views(r.rejected_user_rules@) == expected_rejections(
                *self.policies,
                self.user_rules@,
                *request,
            ),
            r.inputs_digest@ == hex_text(
                sha256_hash(vstd::utf8::encode_utf8(inputs_material(*request, *self.policies, self.user_rules@))),
            ),
    {
        let trust = match request.derived_from_trust {
            Some(t) => t,
            None => FAIL_CLOSED_TRUST,
        };
        let escalation = escalate(request.catalog_tier, trust);
        let ghost policies = *self.policies;
        let ghost rules = self.user_rules@;
        let ghost req = *request;
        proof {
            assert(trust == eval_trust(req));
            assert(rejection_views(Seq::<RejectedUserRule>::empty()) =~= Seq::empty());
        }
        let inputs_digest = inputs_digest(
            request,
            escalation.effective_tier,
            escalation.escalated,
            escalation.trust,
            self.policies,
            self.user_rules,
        );

        // 1. RBAC.
        match check(request.roles, request.action) {
            Err(failure) => {
                return self.outcome(Decision::Deny, PolicyReason::Rbac(failure), &escalation, false, Vec::new(), inputs_digest);
            },
            Ok(()) => {},
        }

        // 2. A proposal without a resolved projection has no authority.
        if request.capability_projection_id.is_none() {
            return self.outcome(
                Decision::Deny,
                PolicyReason::CapabilityProjectionMissing,
                &escalation,
                false,
                Vec::new(),
                inputs_digest,
            );
        }

        // 3./4. Privacy guard.
        let privacy = check_privacy(
            PrivacyInputs {
                data_classes: request.data_classes,
                destination: request.destination,
                egress_grants: request.egress_grants,
                untrusted_origin: trust.is_untrusted_external(),
            },
        );
        if let Some(failure) = privacy.failure() {
            return self.outcome(Decision::Deny, PolicyReason::Guard(failure), &escalation, false, Vec::new(), inputs_digest);
        }

        // 5. Sequence guards.
        if let Some(failure) = check_sequence(request.sequence_guards, request.sequence).failure() {
            return self.outcome(Decision::Deny, PolicyReason::Guard(failure), &escalation, false, Vec::new(), inputs_digest);
        }
        assert(gate_refusal(req) is None);

        // 6. Policy rules: most restrictive matching decision wins.
        let rule_context = RuleContext {
            trust,
            effective_tier: escalation.effective_tier,
            data_classes: request.data_classes,
            now: request.now,
            sequence: request.sequence,
        };
        let tier = escalation.effective_tier.get();
        proof {
            Tier::lemma_from_nat(escalation.effective_tier, eval_tier(req));
            assert(rule_context == eval_context(req));
        }
        let matching = self.policies.matching_rules(request.effect_class, request.resource, &rule_context);
        let ghost m = eval_matching(policies, req);
        assert(deref_all(matching@) == m);
        if any_decision(&matching, PolicyDecision::Deny) {
            return self.outcome(Decision::Deny, PolicyReason::PolicyExplicitDeny, &escalation, false, Vec::new(), inputs_digest);
        }
        let any_ask = any_decision(&matching, PolicyDecision::Ask);
        let allows_always = matching.len() > 0 && !any_ask;
        let mut decision = if matching.len() == 0 {
            if tier == 0 {
                Decision::Allow
            } else {
                return self.outcome(
                    Decision::Deny,
                    PolicyReason::NoMatchingPolicyRule { tier },
                    &escalation,
                    false,
                    Vec::new(),
                    inputs_digest,
                );
            }
        } else if any_ask {
            Decision::Ask
        } else {
            Decision::Allow
        };

        // 7. Tier ≥ 3 requires a receipt unless a standing rule applies.
        if decision == Decision::Allow && tier >= 3 {
            decision = Decision::Ask;
        }
        assert(policy_verdict(m, eval_tier(req)) == Ok::<Decision, PolicyReason>(decision));
        assert(allows_always == policy_allows_always(m));

        // 8. User rules may only narrow, or widen `ask → always` where policy permits.
        let mut reason = match decision {
            Decision::Ask => PolicyReason::ApprovalRequired,
            _ => PolicyReason::Allowed,
        };
        let user_id = match request.user_id {
            None => {
                proof {
                    assert(applicable_rules(rules, req) =~= Seq::<UserRule>::empty());
                    assert(expected_rejections(policies, rules, req) =~= Seq::empty());
                }
                return self.outcome(decision, reason, &escalation, false, Vec::new(), inputs_digest);
            },
            Some(u) => u,
        };
        let applicable = applicable_for(self.user_rules, user_id, request.effect_class, request.resource, request.now);
        let ghost app = applicable_rules(rules, req);
        assert(deref_all(applicable@) == app);
        match find_never(&applicable) {
            Some(i) => {
                let rule_id = owned(applicable[i].id.as_str());
                proof {
                    assert(deref_all(applicable@)[i as int] == *applicable@[i as int]);
                    assert(has_user_decision(app, UserRuleDecision::Never));
                }
                return self.outcome(
                    Decision::Deny,
                    PolicyReason::UserRuleNever { rule_id },
                    &escalation,
                    false,
                    Vec::new(),
                    inputs_digest,
                );
            },
            None => {},
        }
        if any_user_decision(&applicable, UserRuleDecision::Ask) {
            decision = Decision::Ask;
            reason = PolicyReason::ApprovalRequired;
        }
        let has_always = any_user_decision(&applicable, UserRuleDecision::Always);
        let rejection = if tier == 4 {
            Some(UserRuleRejection::TierFour)
        } else if escalation.escalated {
            Some(UserRuleRejection::Escalated)
        } else if !allows_always {
            Some(UserRuleRejection::NotPermittedByPolicy)
        } else {
            None
        };
        assert(rejection == always_rejection(eval_tier(req), eval_escalated(req), policy_allows_always(m)));
        let (standing_allow, rejected) = match rejection {
            Some(why) => (false, reject_always(&applicable, why)),
            None => (has_always, Vec::new()),
        };
        if standing_allow {
            decision = Decision::Allow;
            reason = PolicyReason::AllowedByStandingRule;
        }
        proof {
            if rejection is None {
                assert(expected_rejections(policies, rules, req) =~= Seq::empty());
            }
        }
        self.outcome(decision, reason, &escalation, standing_allow, rejected, inputs_digest)
    }

    fn outcome(
        &self,
        decision: Decision,
        reason: PolicyReason,
        escalation: &Escalation,
        standing_allow: bool,
        rejected_user_rules: Vec<RejectedUserRule>,
        inputs_digest: Digest,
    ) -> (r: PolicyOutcome)
        ensures
            r.decision == decision,
            r.reason == reason,
            r.catalog_tier == escalation.catalog_tier,
            r.effective_tier == escalation.effective_tier,
            r.escalated == escalation.escalated,
            r.approval_required == (decision == Decision::Ask),
            r.standing_allow == standing_allow,
            r.rejected_user_rules@ == rejected_user_rules@,
            r.inputs_digest == inputs_digest,
    {
        PolicyOutcome {
            decision,
            reason,
            catalog_tier: escalation.catalog_tier,
            effective_tier: escalation.effective_tier,
            escalated: escalation.escalated,
            approval_required: decision == Decision::Ask,
            standing_allow,
            rejected_user_rules,
            inputs_digest,
        }
    }
}

} // verus!
