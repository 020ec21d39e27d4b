//! The canonical JSON text of a policy evaluation's exact inputs, and its digest.
//!
//! The text is a JSON object whose keys appear in sorted order, strings quoted as
//! `serde_json` quotes them and integers in decimal, so equal inputs always give the same
//! bytes and the same digest.

use vstd::prelude::*;
use crate::text::{decimal_text, int_text, owned, u64_text, i64_text};
use crate::crypto::{Digest, hex_text, sha256_hash};
use crate::json_text::{array_of, json_array, json_optional, json_quote, json_quoted, optional_text};
use crate::policy::lifecycle::string_views;
use crate::policy::capability::{ResourceSelector, UserRuleDecision};
use crate::policy::escalation::{TrustLevel, trust_name};
use crate::policy::guards::{DataClass, EgressDestination, SequenceContext, SequenceGuard, sequence_guard_name};
use crate::policy::rbac::{ActionFamily, ActorRoles, TenantRole, WorkspaceRole, tenant_role_name, workspace_role_name};
use crate::policy::rules::{Policy, PolicySet, UserRule, deref_all, policies_in_order, scope_name, user_rule_decision_name, user_rule_decision_str};
use crate::policy::capability::Tier;
use crate::policy::evaluation::{EvaluationRequest, eval_escalated, eval_tier, eval_trust};

verus! {

/// The JSON object of a destination.
pub open spec fn destination_json(d: EgressDestination) -> Seq<char> {
    "{\"kind\":"@ + json_quoted(d.kind@) + ",\"value\":"@ + json_quoted(d.value@) + "}"@
}

fn destination_text(d: &EgressDestination) -> (r: String)
    ensures
        r@ == destination_json(*d),
{
    let mut out = owned("{\"kind\":");
    out.append(json_quote(d.kind.as_str()).as_str());
    out.append(",\"value\":");
    out.append(json_quote(d.value.as_str()).as_str());
    out.append("}");
    out
}

/// The JSON object naming a policy: its id, scope and version.
pub open spec fn policy_json(p: Policy) -> Seq<char> {
    "{\"id\":"@ + json_quoted(p.id@) + ",\"scope\":"@ + json_quoted(scope_name(p.scope)) + ",\"version\":"@ + int_text(
        p.version as int,
    ) + "}"@
}

fn policy_text(p: &Policy) -> (r: String)
    ensures
        r@ == policy_json(*p),
{
    let mut out = owned("{\"id\":");
    out.append(json_quote(p.id.as_str()).as_str());
    out.append(",\"scope\":");
    out.append(json_quote(p.scope.as_str()).as_str());
    out.append(",\"version\":");
    out.append(i64_text(p.version as i64).as_str());
    out.append("}");
    out
}

/// The JSON object naming a user rule: its decision, effect class and id.
pub open spec fn rule_json(r: UserRule) -> Seq<char> {
    "{\"decision\":"@ + json_quoted(user_rule_decision_name(r.decision)) + ",\"effect_class\":"@ + json_quoted(
        r.effect_class@,
    ) + ",\"id\":"@ + json_quoted(r.id@) + "}"@
}

fn rule_text(rule: &UserRule) -> (r: String)
    ensures
        r@ == rule_json(*rule),
{
    let mut out = owned("{\"decision\":");
    out.append(json_quote(user_rule_decision_str(rule.decision)).as_str());
    out.append(",\"effect_class\":");
    out.append(json_quote(rule.effect_class.as_str()).as_str());
    out.append(",\"id\":");
    out.append(json_quote(rule.id.as_str()).as_str());
    out.append("}");
    out
}

/// The debug rendering of an action family.
pub open spec fn action_text(a: ActionFamily) -> Seq<char> {
    match a {
        ActionFamily::Read => "Read"@,
        ActionFamily::AuthorWork => "AuthorWork"@,
        ActionFamily::ApproveEffect => "ApproveEffect"@,
        ActionFamily::ManageWorkspace => "ManageWorkspace"@,
        ActionFamily::ExecuteEffect { tier } => "ExecuteEffect { tier: "@ + decimal_text(tier as nat) + " }"@,
        ActionFamily::AdminOps => "AdminOps"@,
        ActionFamily::ManageTenant => "ManageTenant"@,
        ActionFamily::ViewUsage => "ViewUsage"@,
    }
}

fn action_string(a: ActionFamily) -> (r: String)
    ensures
        r@ == action_text(a),
{
    match a {
        ActionFamily::Read => owned("Read"),
        ActionFamily::AuthorWork => owned("AuthorWork"),
        ActionFamily::ApproveEffect => owned("ApproveEffect"),
        ActionFamily::ManageWorkspace => owned("ManageWorkspace"),
        ActionFamily::ExecuteEffect { tier } => {
            let mut out = owned("ExecuteEffect { tier: ");
            out.append(u64_text(tier as u64).as_str());
            out.append(" }");
            out
        },
        ActionFamily::AdminOps => owned("AdminOps"),
        ActionFamily::ManageTenant => owned("ManageTenant"),
        ActionFamily::ViewUsage => owned("ViewUsage"),
    }
}

/// The JSON object of the actor's roles.
pub open spec fn roles_json(roles: ActorRoles) -> Seq<char> {
    "{\"tenant\":"@ + json_optional(
        match roles.tenant {
            Some(t) => Some(tenant_role_name(t)),
            None => None,
        },
    ) + ",\"workspace\":"@ + json_optional(
        match roles.workspace {
            Some(w) => Some(workspace_role_name(w)),
            None => None,
        },
    ) + "}"@
}

fn roles_text(roles: ActorRoles) -> (r: String)
    ensures
        r@ == roles_json(roles),
{
    let tenant: Option<&str> = match roles.tenant {
        Some(t) => Some(t.as_str()),
        None => None,
    };
    let workspace: Option<&str> = match roles.workspace {
        Some(w) => Some(w.as_str()),
        None => None,
    };
    let mut out = owned("{\"tenant\":");
    out.append(optional_text(tenant).as_str());
    out.append(",\"workspace\":");
    out.append(optional_text(workspace).as_str());
    out.append("}");
    out
}

/// The JSON array of the quoted ids.
pub open spec fn ids_json(ids: Seq<String>) -> Seq<char> {
    json_array(ids.map_values(|s: String| json_quoted(s@)))
}

fn ids_text(ids: &Vec<String>) -> (r: String)
    ensures
        r@ == ids_json(ids@),
{
    let ghost f = |s: String| json_quoted(s@);
    let mut items: Vec<String> = Vec::new();
    let mut i: usize = 0;
    while i < ids.len()
        invariant
            i <= ids@.len(),
            f == (|s: String| json_quoted(s@)),
            string_views(items@) == ids@.take(i as int).map_values(f),
        decreases ids@.len() - i,
    {
        let ghost before = items@;
        items.push(json_quote(ids[i].as_str()));
        proof {
            assert(string_views(items@) =~= string_views(before).push(json_quoted(ids@[i as int]@)));
            assert(ids@.take(i + 1).map_values(f) =~= ids@.take(i as int).map_values(f).push(f(ids@[i as int])));
        }
        i = i + 1;
    }
    proof {
        assert(ids@.take(ids@.len() as int) =~= ids@);
    }
    array_of(&items)
}

/// The JSON object of the durable sequence facts.
pub open spec fn sequence_json(s: SequenceContext) -> Seq<char> {
    "{\"granted_approvals\":"@ + ids_json(s.granted_approval_ids@) + ",\"reserved_effects\":"@ + ids_json(
        s.reserved_effect_ids@,
    ) + ",\"settled_effects\":"@ + ids_json(s.settled_effect_ids@) + ",\"used_approvals\":"@ + ids_json(
        s.used_approval_ids@,
    ) + "}"@
}

fn sequence_text(s: &SequenceContext) -> (r: String)
    ensures
        r@ == sequence_json(*s),
{
    let mut out = owned("{\"granted_approvals\":");
    out.append(ids_text(&s.granted_approval_ids).as_str());
    out.append(",\"reserved_effects\":");
    out.append(ids_text(&s.reserved_effect_ids).as_str());
    out.append(",\"settled_effects\":");
    out.append(ids_text(&s.settled_effect_ids).as_str());
    out.append(",\"used_approvals\":");
    out.append(ids_text(&s.used_approval_ids).as_str());
    out.append("}");
    out
}

/// The JSON object of a resource selector.
pub open spec fn resource_json(r: ResourceSelector) -> Seq<char> {
    "{\"kind\":"@ + json_quoted(r.kind@) + ",\"selector\":"@ + json_quoted(r.selector@) + "}"@
}

fn resource_text(res: &ResourceSelector) -> (r: String)
    ensures
        r@ == resource_json(*res),
{
    let mut out = owned("{\"kind\":");
    out.append(json_quote(res.kind.as_str()).as_str());
    out.append(",\"selector\":");
    out.append(json_quote(res.selector.as_str()).as_str());
    out.append("}");
    out
}

fn data_classes_text(classes: &[DataClass]) -> (r: String)
    ensures
        r@ == json_array(classes@.map_values(|d: DataClass| json_quoted(d@))),
{
    let ghost f = |d: DataClass| json_quoted(d@);
    let mut items: Vec<String> = Vec::new();
    let mut i: usize = 0;
    while i < classes.len()
        invariant
            i <= classes@.len(),
            f == (|d: DataClass| json_quoted(d@)),
            string_views(items@) == classes@.take(i as int).map_values(f),
        decreases classes@.len() - i,
    {
        let ghost before = items@;
        items.push(json_quote(classes[i].as_str()));
        proof {
            assert(string_views(items@) =~= string_views(before).push(json_quoted(classes@[i as int]@)));
            assert(classes@.take(i + 1).map_values(f) =~= classes@.take(i as int).map_values(f).push(f(classes@[i as int])));
        }
        i = i + 1;
    }
    proof {
        assert(classes@.take(classes@.len() as int) =~= classes@);
    }
    array_of(&items)
}

fn guards_text(guards: &[SequenceGuard]) -> (r: String)
    ensures
        r@ == json_array(guards@.map_values(|g: SequenceGuard| json_quoted(sequence_guard_name(g)))),
{
    let ghost f = |g: SequenceGuard| json_quoted(sequence_guard_name(g));
    let mut items: Vec<String> = Vec::new();
    let mut i: usize = 0;
    while i < guards.len()
        invariant
            i <= guards@.len(),
            f == (|g: SequenceGuard| json_quoted(sequence_guard_name(g))),
            string_views(items@) == guards@.take(i as int).map_values(f),
        decreases guards@.len() - i,
    {
        let ghost before = items@;
        items.push(json_quote(guards[i].as_str()));
        proof {
            assert(string_views(items@) =~= string_views(before).push(f(guards@[i as int])));
            assert(guards@.take(i + 1).map_values(f) =~= guards@.take(i as int).map_values(f).push(f(guards@[i as int])));
        }
        i = i + 1;
    }
    proof {
        assert(guards@.take(guards@.len() as int) =~= guards@);
    }
    array_of(&items)
}

fn destinations_text(dests: &[EgressDestination]) -> (r: String)
    ensures
        r@ == json_array(dests@.map_values(|d: EgressDestination| destination_json(d))),
{
    let ghost f = |d: EgressDestination| destination_json(d);
    let mut items: Vec<String> = Vec::new();
    let mut i: usize = 0;
    while i < dests.len()
        invariant
            i <= dests@.len(),
            f == (|d: EgressDestination| destination_json(d)),
            string_views(items@) == dests@.take(i as int).map_values(f),
        decreases dests@.len() - i,
    {
        let ghost before = items@;
        items.push(destination_text(&dests[i]));
        proof {
            assert(string_views(items@) =~= string_views(before).push(f(dests@[i as int])));
            assert(dests@.take(i + 1).map_values(f) =~= dests@.take(i as int).map_values(f).push(f(dests@[i as int])));
        }
        i = i + 1;
    }
    proof {
        assert(dests@.take(dests@.len() as int) =~= dests@);
    }
    array_of(&items)
}

fn policies_text(policies: &PolicySet) -> (r: String)
    ensures
        r@ == json_array(policies_in_order(*policies).map_values(|p: Policy| policy_json(p))),
{
    let ordered = policies.in_order();
    let ghost f = |p: Policy| policy_json(p);
    let ghost all = deref_all(ordered@);
    let mut items: Vec<String> = Vec::new();
    let mut i: usize = 0;
    while i < ordered.len()
        invariant
            i <= ordered@.len(),
            all == deref_all(ordered@),
            f == (|p: Policy| policy_json(p)),
            string_views(items@) == all.take(i as int).map_values(f),
        decreases ordered@.len() - i,
    {
        let ghost before = items@;
        items.push(policy_text(ordered[i]));
        proof {
            assert(all[i as int] == *ordered@[i as int]);
            assert(string_views(items@) =~= string_views(before).push(f(all[i as int])));
            assert(all.take(i + 1).map_values(f) =~= all.take(i as int).map_values(f).push(f(all[i as int])));
        }
        i = i + 1;
    }
    proof {
        assert(all.take(all.len() as int) =~= all);
    }
    array_of(&items)
}

fn rules_text(rules: &[UserRule]) -> (r: String)
    ensures
        r@ == json_array(rules@.map_values(|u: UserRule| rule_json(u))),
{
    let ghost f = |u: UserRule| rule_json(u);
    let mut items: Vec<String> = Vec::new();
    let mut i: usize = 0;
    while i < rules.len()
        invariant
            i <= rules@.len(),
            f == (|u: UserRule| rule_json(u)),
            string_views(items@) == rules@.take(i as int).map_values(f),
        decreases rules@.len() - i,
    {
        let ghost before = items@;
        items.push(rule_text(&rules[i]));
        proof {
            assert(string_views(items@) =~= string_views(before).push(f(rules@[i as int])));
            assert(rules@.take(i + 1).map_values(f) =~= rules@.take(i as int).map_values(f).push(f(rules@[i as int])));
        }
        i = i + 1;
    }
    proof {
        assert(rules@.take(rules@.len() as int) =~= rules@);
    }
    array_of(&items)
}

/// The canonical JSON text of an evaluation's inputs: every key in sorted order.
pub open spec fn inputs_material(req: EvaluationRequest, policies: PolicySet, rules: Seq<UserRule>) -> Seq<char> {
    "{\"action\":"@ + json_quoted(action_text(req.action)) + ",\"capability_projection_id\":"@ + json_optional(
        match req.capability_projection_id {
            Some(c) => Some(c@),
            None => None,
        },
    ) + ",\"catalog_tier\":"@ + decimal_text(req.catalog_tier@) + ",\"data_classes\":"@ + json_array(
        req.data_classes@.map_values(|d: DataClass| json_quoted(d@)),
    ) + ",\"destination\":"@ + match req.destination {
        Some(d) => destination_json(*d),
        None => "null"@,
    } + ",\"effect_class\":"@ + json_quoted(req.effect_class@) + ",\"effective_tier\":"@ + decimal_text(eval_tier(req))
        + ",\"egress_grants\":"@ + json_array(req.egress_grants@.map_values(|d: EgressDestination| destination_json(d)))
        + ",\"escalated\":"@ + (if eval_escalated(req) {
        "true"@
    } else {
        "false"@
    }) + ",\"policies\":"@ + json_array(policies_in_order(policies).map_values(|p: Policy| policy_json(p)))
        + ",\"resource\":"@ + resource_json(*req.resource) + ",\"roles\":"@ + roles_json(req.roles) + ",\"sequence\":"@
        + sequence_json(*req.sequence) + ",\"sequence_guards\":"@ + json_array(
        req.sequence_guards@.map_values(|g: SequenceGuard| json_quoted(sequence_guard_name(g))),
    ) + ",\"trust\":"@ + json_quoted(trust_name(eval_trust(req))) + ",\"user_id\":"@ + json_optional(
        match req.user_id {
            Some(u) => Some(u@),
            None => None,
        },
    ) + ",\"user_rules\":"@ + json_array(rules.map_values(|u: UserRule| rule_json(u))) + "}"@
}

/// The canonical JSON text of an evaluation's inputs, given the escalation computed for it.
pub fn inputs_text(
    request: &EvaluationRequest<'_>,
    effective_tier: Tier,
    escalated: bool,
    trust: TrustLevel,
    policies: &PolicySet,
    rules: &[UserRule],
) -> (r: String)
    requires
        effective_tier@ == eval_tier(*request),
        escalated == eval_escalated(*request),
        trust == eval_trust(*request),
    ensures
        r@ == inputs_material(*request, *policies, rules@),
{
    let mut out = owned("{\"action\":");
    out.append(json_quote(action_string(request.action).as_str()).as_str());
    out.append(",\"capability_projection_id\":");
    out.append(optional_text(request.capability_projection_id).as_str());
    out.append(",\"catalog_tier\":");
    out.append(u64_text(request.catalog_tier.get() as u64).as_str());
    out.append(",\"data_classes\":");
    out.append(data_classes_text(request.data_classes).as_str());
    out.append(",\"destination\":");
    match request.destination {
        Some(d) => out.append(destination_text(d).as_str()),
        None => out.append("null"),
    }
    out.append(",\"effect_class\":");
    out.append(json_quote(request.effect_class.as_str()).as_str());
    out.append(",\"effective_tier\":");
    out.append(u64_text(effective_tier.get() as u64).as_str());
    out.append(",\"egress_grants\":");
    out.append(destinations_text(request.egress_grants.destinations()).as_str());
    out.append(",\"escalated\":");
    if escalated {
        out.append("true");
    } else {
        out.append("false");
    }
    out.append(",\"policies\":");
    out.append(policies_text(policies).as_str());
    out.append(",\"resource\":");
    out.append(resource_text(request.resource).as_str());
    out.append(",\"roles\":");
    out.append(roles_text(request.roles).as_str());
    out.append(",\"sequence\":");
    out.append(sequence_text(request.sequence).as_str());
    out.append(",\"sequence_guards\":");
    out.append(guards_text(request.sequence_guards).as_str());
    out.append(",\"trust\":");
    out.append(json_quote(trust.as_str()).as_str());
    out.append(",\"user_id\":");
    out.append(optional_text(request.user_id).as_str());
    out.append(",\"user_rules\":");
    out.append(rules_text(rules).as_str());
    out.append("}");
    out
}

/// The digest of an evaluation's exact inputs: the SHA-256 of their canonical JSON text.
pub fn inputs_digest(
    request: &EvaluationRequest<'_>,
    effective_tier: Tier,
    escalated: bool,
    trust: TrustLevel,
    policies: &PolicySet,
    rules: &[UserRule],
) -> (r: Digest)
    requires
        effective_tier@ == eval_tier(*request),
        escalated == eval_escalated(*request),
        trust == eval_trust(*request),
    ensures
        r@ == hex_text(sha256_hash(vstd::utf8::encode_utf8(inputs_material(*request, *policies, rules@)))),
{
    let text = inputs_text(request, effective_tier, escalated, trust, policies, rules);
    Digest::of(text.as_str().as_bytes())
}

} // verus!
