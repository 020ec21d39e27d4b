//! Policy and user-rule documents with typed conditions.
//!
//! A policy is a tenant- or workspace-scope rule set. A workspace policy can only narrow
//! its tenant policy; evaluation therefore takes the most restrictive decision across all
//! matching rules (deny beats ask beats allow) rather than letting a lower-scope `allow`
//! undo a higher-scope restriction. A rule whose conditions do not hold is not a match.

use vstd::prelude::*;
use crate::text::{chars_of, str_eq, owned};
use crate::time::{Timestamp, earlier, minute_of_day_at};
use crate::policy::capability::{
    EffectClass, PolicyDecision, ResourceSelector, Tier, UserRuleDecision, selectors_overlap,
};
use crate::policy::error::PolicyError;
use crate::policy::escalation::{TrustLevel, trust_rank};
use crate::policy::guards::{DataClass, SequenceContext, SequenceGuard, guard_holds};

verus! {

/// The scope a policy applies at.
#[derive(Debug, Clone, Copy, PartialEq, Eq, Hash, Structural)]
pub enum PolicyScope {
    /// Tenant-wide policy.
    Tenant,
    /// Workspace policy, which can only narrow the tenant policy.
    Workspace,
}

/// The lowercase wire name of a scope.
pub open spec fn scope_name(s: PolicyScope) -> Seq<char> {
    match s {
        PolicyScope::Tenant => "tenant"@,
        PolicyScope::Workspace => "workspace"@,
    }
}

impl PolicyScope {
    /// The canonical wire name.
    pub fn as_str(self) -> (s: &'static str)
        ensures
            s@ == scope_name(self),
    {
        match self {
            PolicyScope::Tenant => "tenant",
            PolicyScope::Workspace => "workspace",
        }
    }

    /// Parse a canonical scope; the rejected value is returned on failure.
    pub fn parse(value: &str) -> (r: Result<PolicyScope, String>)
        ensures
            r matches Ok(s) ==> scope_name(s) == value@,
            r is Err ==> forall|s: PolicyScope| scope_name(s) != value@,
            r matches Err(v) ==> v@ == value@,
    {
        if str_eq(value, "tenant") {
            Ok(PolicyScope::Tenant)
        } else if str_eq(value, "workspace") {
            Ok(PolicyScope::Workspace)
        } else {
            proof {
                assert forall|s: PolicyScope| scope_name(s) != value@ by {
                    match s {
                        PolicyScope::Tenant => {},
                        PolicyScope::Workspace => {},
                    }
                }
            }
            Err(owned(value))
        }
    }
}

/// The scope names are distinct, so parsing a name gives back its scope.
pub proof fn law_scope_names_round_trip(s: PolicyScope, t: PolicyScope)
    ensures
        scope_name(s) == scope_name(t) ==> s == t,
{
    reveal_strlit("tenant");
    reveal_strlit("workspace");
    if scope_name(s) == scope_name(t) && s != t {
        assert(scope_name(s).len() != scope_name(t).len());
    }
}

/// Whether `c` is an ASCII decimal digit.
pub open spec fn is_digit(c: char) -> bool {
    '0' <= c && c <= '9'
}

/// The value of a decimal digit.
pub open spec fn digit_value(c: char) -> int {
    (c as int) - ('0' as int)
}

/// The value of a string of decimal digits.
pub open spec fn decimal_value(s: Seq<char>) -> int
    decreases s.len(),
{
    if s.len() == 0 {
        0
    } else {
        decimal_value(s.drop_last()) * 10 + digit_value(s.last())
    }
}

/// Whether every character of `s` is a decimal digit.
pub open spec fn all_digits(s: Seq<char>) -> bool {
    forall|i: int| 0 <= i < s.len() ==> is_digit(#[trigger] s[i])
}

/// What `str::parse::<u32>` gives: an optional leading `+`, then one or more decimal
/// digits whose value fits in a `u32`.
pub open spec fn parse_u32_text(s: Seq<char>) -> Option<int> {
    let body = if s.len() > 0 && s[0] == '+' {
        s.drop_first()
    } else {
        s
    };
    if body.len() > 0 && all_digits(body) && decimal_value(body) <= u32::MAX {
        Some(decimal_value(body))
    } else {
        None
    }
}

/// Whether `i` is the position of the first `:` of `s`.
pub open spec fn first_colon(s: Seq<char>, i: int) -> bool {
    0 <= i < s.len() && s[i] == ':' && forall|j: int| 0 <= j < i ==> s[j] != ':'
}

/// The minute of day an `HH:MM` bound denotes: split at the first `:`, both halves parse
/// as `u32`, hours below 24 and minutes below 60.
pub open spec fn minute_of_day_text(s: Seq<char>) -> Option<int> {
    if exists|i: int| first_colon(s, i) {
        let i = choose|i: int| first_colon(s, i);
        match (parse_u32_text(s.take(i)), parse_u32_text(s.skip(i + 1))) {
            (Some(h), Some(m)) => if h < 24 && m < 60 {
                Some(h * 60 + m)
            } else {
                None
            },
            _ => None,
        }
    } else {
        None
    }
}

/// The value of one decimal digit.
fn digit_of(c: char) -> (r: u64)
    requires
        is_digit(c),
    ensures
        r == digit_value(c),
{
    if c == '0' {
        0
    } else if c == '1' {
        1
    } else if c == '2' {
        2
    } else if c == '3' {
        3
    } else if c == '4' {
        4
    } else if c == '5' {
        5
    } else if c == '6' {
        6
    } else if c == '7' {
        7
    } else if c == '8' {
        8
    } else {
        9
    }
}

/// Parse `s[start..end]` as `str::parse::<u32>` would.
fn parse_u32_range(s: &Vec<char>, start: usize, end: usize) -> (r: Option<u32>)
    requires
        start <= end <= s@.len(),
    ensures
        match r {
            Some(v) => parse_u32_text(s@.subrange(start as int, end as int)) == Some(v as int),
            None => parse_u32_text(s@.subrange(start as int, end as int)) is None,
        },
{
    let ghost text = s@.subrange(start as int, end as int);
    let mut i = start;
    if start < end && s[start] == '+' {
        i = start + 1;
    }
    let ghost body = s@.subrange(i as int, end as int);
    proof {
        if start < end && s@[start as int] == '+' {
            assert(body =~= text.drop_first());
        } else {
            assert(body =~= text);
        }
    }
    let ghost spec_result = if body.len() > 0 && all_digits(body) && decimal_value(body) <= u32::MAX {
        Some(decimal_value(body))
    } else {
        None::<int>
    };
    assert(parse_u32_text(text) == spec_result);
    if i == end {
        return None;
    }
    let body_start = i;
    let cap: u64 = 4_294_967_296;
    let mut value: u64 = 0;
    while i < end
        invariant
            body_start <= i <= end <= s@.len(),
            body == s@.subrange(body_start as int, end as int),
            text == s@.subrange(start as int, end as int),
            parse_u32_text(text) == spec_result,
            spec_result == (if body.len() > 0 && all_digits(body) && decimal_value(body) <= u32::MAX {
                Some(decimal_value(body))
            } else {
                None::<int>
            }),
            cap == 4_294_967_296,
            value <= cap,
            value == (if decimal_value(s@.subrange(body_start as int, i as int)) < cap {
                decimal_value(s@.subrange(body_start as int, i as int))
            } else {
                cap as int
            }),
            all_digits(s@.subrange(body_start as int, i as int)),
        decreases end - i,
    {
        let c = s[i];
        if !('0' <= c && c <= '9') {
            proof {
                assert(body[i - body_start] == c);
                assert(!all_digits(body));
            }
            return None;
        }
        let d = digit_of(c);
        proof {
            let prefix = s@.subrange(body_start as int, i + 1);
            assert(prefix.drop_last() =~= s@.subrange(body_start as int, i as int));
            assert(prefix.last() == c);
        }
        assert(d <= 9);
        assert(value * 10 + d <= 42_949_672_969);
        let next = value * 10 + d;
        value = if next < cap {
            next
        } else {
            cap
        };
        i = i + 1;
        proof {
            assert forall|k: int| 0 <= k < s@.subrange(body_start as int, i as int).len() implies is_digit(
                #[trigger] s@.subrange(body_start as int, i as int)[k],
            ) by {
                if k < i - 1 - body_start {
                    assert(s@.subrange(body_start as int, i as int)[k] == s@.subrange(
                        body_start as int,
                        i - 1,
                    )[k]);
                }
            }
        }
    }
    proof {
        assert(s@.subrange(body_start as int, i as int) =~= body);
    }
    if value < cap {
        Some(value as u32)
    } else {
        None
    }
}

/// Parse an `HH:MM` bound into its minute of day.
fn minute_of_day(value: &str) -> (r: Option<u32>)
    ensures
        match r {
            Some(m) => minute_of_day_text(value@) == Some(m as int),
            None => minute_of_day_text(value@) is None,
        },
{
    let s = chars_of(value);
    let mut i: usize = 0;
    while i < s.len() && s[i] != ':'
        invariant
            s@ == value@,
            i <= s@.len(),
            forall|j: int| 0 <= j < i ==> s@[j] != ':',
        decreases s@.len() - i,
    {
        i = i + 1;
    }
    if i == s.len() {
        proof {
            assert forall|k: int| !first_colon(value@, k) by {
                if first_colon(value@, k) {
                    assert(s@[k] == ':');
                }
            }
        }
        return None;
    }
    proof {
        assert(first_colon(value@, i as int));
        let c = choose|k: int| first_colon(value@, k);
        assert(first_colon(value@, c));
        if c < i {
            assert(s@[c] == ':');
        }
        if c > i {
            assert(value@[i as int] == ':');
        }
        assert(c == i);
        assert(s@.subrange(0, i as int) =~= value@.take(i as int));
        assert(s@.subrange(i + 1, s@.len() as int) =~= value@.skip(i + 1));
    }
    let hours = parse_u32_range(&s, 0, i);
    let minutes = parse_u32_range(&s, i + 1, s.len());
    match (hours, minutes) {
        (Some(h), Some(m)) => {
            if h < 24 && m < 60 {
                Some(h * 60 + m)
            } else {
                None
            }
        },
        _ => None,
    }
}

/// A `HH:MM`–`HH:MM` daily window in UTC.
#[derive(Debug, Clone, PartialEq, Eq, Hash)]
pub struct TimeWindow {
    /// Inclusive start minute of day (`HH:MM`).
    pub start: String,
    /// Exclusive end minute of day (`HH:MM`); a window may wrap midnight.
    pub end: String,
}

/// Whether the instant `now` falls inside the window `start`–`end`. An unparseable
/// bound is not a match.
pub open spec fn window_holds(start: Seq<char>, end: Seq<char>, now: (int, int)) -> bool {
    match (minute_of_day_text(start), minute_of_day_text(end)) {
        (Some(s), Some(e)) => {
            let current = minute_of_day_at(now);
            if s <= e {
                current >= s && current < e
            } else {
                current >= s || current < e
            }
        },
        _ => false,
    }
}

impl TimeWindow {
    /// Build a window.
    pub fn new(start: &str, end: &str) -> (r: TimeWindow)
        ensures
            r.start@ == start@,
            r.end@ == end@,
    {
        TimeWindow { start: owned(start), end: owned(end) }
    }

    /// Whether `now` falls inside the window; an unparseable bound fails closed.
    pub fn holds(&self, now: Timestamp) -> (r: bool)
        ensures
            r == window_holds(self.start@, self.end@, now@),
    {
        let (start, end) = match (minute_of_day(self.start.as_str()), minute_of_day(self.end.as_str())) {
            (Some(s), Some(e)) => (s, e),
            _ => return false,
        };
        let current = now.minute_of_day();
        if start <= end {
            current >= start && current < end
        } else {
            current >= start || current < end
        }
    }
}

/// Rule conditions. An absent condition always holds.
#[derive(Debug, Clone, PartialEq, Eq)]
pub struct RuleConditions {
    /// The rule applies only when the derivation is at most this untrusted.
    pub trust_max: Option<TrustLevel>,
    /// The rule applies only when the effective tier is at most this.
    pub tier_max: Option<Tier>,
    /// The rule applies only when every proposal data class is in this set.
    pub data_classes: Vec<DataClass>,
    /// The rule applies only inside this UTC window.
    pub time_window: Option<TimeWindow>,
    /// Sequence guards the rule requires.
    pub sequence_guards: Vec<SequenceGuard>,
}

impl RuleConditions {
    /// No conditions: the rule applies whenever it matches.
    pub fn none() -> (r: RuleConditions)
        ensures
            r.trust_max is None,
            r.tier_max is None,
            r.data_classes@.len() == 0,
            r.time_window is None,
            r.sequence_guards@.len() == 0,
    {
        RuleConditions {
            trust_max: None,
            tier_max: None,
            data_classes: Vec::new(),
            time_window: None,
            sequence_guards: Vec::new(),
        }
    }
}

/// The facts a rule's conditions are evaluated against.
#[derive(Debug, Clone, Copy)]
pub struct RuleContext<'a> {
    /// Most-untrusted derivation of the proposal.
    pub trust: TrustLevel,
    /// Effective tier after escalation.
    pub effective_tier: Tier,
    /// Data classes carried by the proposal.
    pub data_classes: &'a [DataClass],
    /// When the decision is made.
    pub now: Timestamp,
    /// Durable sequence facts.
    pub sequence: &'a SequenceContext,
}

/// Whether `class` is one of `listed` (same name).
pub open spec fn class_listed(class: DataClass, listed: Seq<DataClass>) -> bool {
    exists|j: int| 0 <= j < listed.len() && (#[trigger] listed[j])@ == class@
}

/// Whether every condition holds for the context.
pub open spec fn conditions_hold(c: RuleConditions, ctx: RuleContext) -> bool {
    &&& (c.trust_max matches Some(m) ==> trust_rank(ctx.trust) <= trust_rank(m))
    &&& (c.tier_max matches Some(m) ==> ctx.effective_tier@ <= m@)
    &&& (c.data_classes@.len() > 0 ==> forall|i: int|
        0 <= i < ctx.data_classes@.len() ==> class_listed(
            #[trigger] ctx.data_classes@[i],
            c.data_classes@,
        ))
    &&& (c.time_window matches Some(w) ==> window_holds(w.start@, w.end@, ctx.now@))
    &&& forall|i: int|
        0 <= i < c.sequence_guards@.len() ==> guard_holds(
            #[trigger] c.sequence_guards@[i],
            *ctx.sequence,
        )
}

/// Whether `class` is one of `listed`.
fn class_in(class: &DataClass, listed: &Vec<DataClass>) -> (r: bool)
    ensures
        r == class_listed(*class, listed@),
{
    let mut j: usize = 0;
    while j < listed.len()
        invariant
            j <= listed@.len(),
            forall|k: int| 0 <= k < j ==> (#[trigger] listed@[k])@ != class@,
        decreases listed@.len() - j,
    {
        if str_eq(listed[j].as_str(), class.as_str()) {
            return true;
        }
        j = j + 1;
    }
    false
}

/// Whether every class of `classes` is one of `listed`.
fn all_listed(classes: &[DataClass], listed: &Vec<DataClass>) -> (r: bool)
    ensures
        r == forall|i: int| 0 <= i < classes@.len() ==> class_listed(#[trigger] classes@[i], listed@),
{
    let mut i: usize = 0;
    while i < classes.len()
        invariant
            i <= classes@.len(),
            forall|k: int| 0 <= k < i ==> class_listed(#[trigger] classes@[k], listed@),
        decreases classes@.len() - i,
    {
        if !class_in(&classes[i], listed) {
            return false;
        }
        i = i + 1;
    }
    true
}

/// Whether every guard of `guards` holds over `sequence`.
fn all_guards_hold(guards: &Vec<SequenceGuard>, sequence: &SequenceContext) -> (r: bool)
    ensures
        r == forall|i: int| 0 <= i < guards@.len() ==> guard_holds(#[trigger] guards@[i], *sequence),
{
    let mut g: usize = 0;
    while g < guards.len()
        invariant
            g <= guards@.len(),
            forall|k: int| 0 <= k < g ==> guard_holds(#[trigger] guards@[k], *sequence),
        decreases guards@.len() - g,
    {
        if !guards[g].holds(sequence) {
            return false;
        }
        g = g + 1;
    }
    true
}

impl RuleConditions {
    /// Whether every condition holds for `context`. A condition that cannot be shown to
    /// hold is treated as not holding, so a rule never applies more widely than written.
    pub fn hold(&self, context: &RuleContext<'_>) -> (r: bool)
        ensures
            r == conditions_hold(*self, *context),
    {
        if let Some(trust_max) = self.trust_max {
            if context.trust.rank() > trust_max.rank() {
                return false;
            }
        }
        if let Some(tier_max) = self.tier_max {
            if context.effective_tier.get() > tier_max.get() {
                return false;
            }
        }
        if self.data_classes.len() > 0 && !all_listed(context.data_classes, &self.data_classes) {
            return false;
        }
        if let Some(window) = &self.time_window {
            if !window.holds(context.now) {
                return false;
            }
        }
        all_guards_hold(&self.sequence_guards, context.sequence)
    }
}

/// One policy rule.
#[derive(Debug, Clone, PartialEq, Eq)]
pub struct PolicyRule {
    /// The effect class the rule governs.
    pub effect_class: EffectClass,
    /// The resource region the rule applies to.
    pub resource_selector: ResourceSelector,
    /// The decision the rule produces.
    pub decision: PolicyDecision,
    /// Conditions under which the rule applies.
    pub conditions: RuleConditions,
}

/// Whether a rule governs this effect class and resource region.
pub open spec fn rule_matches(rule: PolicyRule, effect_class: EffectClass, resource: ResourceSelector) -> bool {
    rule.effect_class@ == effect_class@ && selectors_overlap(rule.resource_selector, resource)
}

/// Whether a rule governs the proposal and all its conditions hold.
pub open spec fn rule_applies(
    rule: PolicyRule,
    effect_class: EffectClass,
    resource: ResourceSelector,
    ctx: RuleContext,
) -> bool {
    rule_matches(rule, effect_class, resource) && conditions_hold(rule.conditions, ctx)
}

/// The predicate "the rule applies to this proposal".
pub open spec fn applies_to(
    effect_class: EffectClass,
    resource: ResourceSelector,
    ctx: RuleContext,
) -> spec_fn(PolicyRule) -> bool {
    |rule: PolicyRule| rule_applies(rule, effect_class, resource, ctx)
}

impl PolicyRule {
    /// Whether the rule governs this effect class and resource region.
    pub fn matches(&self, effect_class: &EffectClass, resource: &ResourceSelector) -> (r: bool)
        ensures
            r == rule_matches(*self, *effect_class, *resource),
    {
        self.effect_class.same(effect_class) && self.resource_selector.overlaps(resource)
    }

    /// Whether the rule governs the proposal and all its conditions hold.
    pub fn applies(
        &self,
        effect_class: &EffectClass,
        resource: &ResourceSelector,
        context: &RuleContext<'_>,
    ) -> (r: bool)
        ensures
            r == rule_applies(*self, *effect_class, *resource, *context),
    {
        self.matches(effect_class, resource) && self.conditions.hold(context)
    }
}

/// A tenant- or workspace-scope policy document.
#[derive(Debug, Clone, PartialEq, Eq)]
pub struct Policy {
    /// The `pol_…` policy id.
    pub id: String,
    /// The scope the policy applies at.
    pub scope: PolicyScope,
    /// Owning workspace, when the scope is workspace.
    pub workspace_id: Option<String>,
    /// The typed rules.
    pub rules: Vec<PolicyRule>,
    /// Default TTL for human questions.
    pub question_default_ttl_seconds: i64,
    /// Default TTL for approval requests.
    pub approval_default_ttl_seconds: i64,
    /// Maximum plan nodes.
    pub max_plan_nodes: i32,
    /// Policy version.
    pub version: i32,
}

impl Policy {
    /// Build a policy from its typed parts, with the default TTLs, node limit and
    /// version 1.
    pub fn new(
        id: &str,
        scope: PolicyScope,
        workspace_id: Option<String>,
        rules: Vec<PolicyRule>,
    ) -> (r: Policy)
        ensures
            r.id@ == id@,
            r.scope == scope,
            r.workspace_id == workspace_id,
            r.rules@ == rules@,
            r.question_default_ttl_seconds == 86_400,
            r.approval_default_ttl_seconds == 3_600,
            r.max_plan_nodes == 25,
            r.version == 1,
    {
        Policy {
            id: owned(id),
            scope,
            workspace_id,
            rules,
            question_default_ttl_seconds: 86_400,
            approval_default_ttl_seconds: 3_600,
            max_plan_nodes: 25,
            version: 1,
        }
    }
}

/// The tenant and workspace policies effective for one decision.
#[derive(Debug, Clone, PartialEq, Eq)]
pub struct PolicySet {
    /// The tenant policy, when one exists.
    pub tenant: Option<Policy>,
    /// The workspace policy, when one exists.
    pub workspace: Option<Policy>,
}

/// The policies of a set in evaluation order: tenant first, then workspace.
pub open spec fn policies_in_order(set: PolicySet) -> Seq<Policy> {
    let first = match set.tenant {
        Some(p) => seq![p],
        None => Seq::empty(),
    };
    match set.workspace {
        Some(p) => first.push(p),
        None => first,
    }
}

/// The rules of an optional policy.
pub open spec fn rules_of(p: Option<Policy>) -> Seq<PolicyRule> {
    match p {
        Some(p) => p.rules@,
        None => Seq::empty(),
    }
}

/// Every rule of a set, tenant rules first.
pub open spec fn set_rules(set: PolicySet) -> Seq<PolicyRule> {
    rules_of(set.tenant) + rules_of(set.workspace)
}

/// The rules of `set` that govern the proposal and whose conditions hold, in order.
pub open spec fn matching(
    set: PolicySet,
    effect_class: EffectClass,
    resource: ResourceSelector,
    ctx: RuleContext,
) -> Seq<PolicyRule> {
    set_rules(set).filter(applies_to(effect_class, resource, ctx))
}

/// The values behind a sequence of references.
pub open spec fn deref_all<T>(s: Seq<&T>) -> Seq<T> {
    s.map_values(|x: &T| *x)
}

/// Append the rules of `rules` that apply to the proposal.
fn collect_applicable<'a>(
    rules: &'a Vec<PolicyRule>,
    effect_class: &EffectClass,
    resource: &ResourceSelector,
    context: &RuleContext<'_>,
    out: &mut Vec<&'a PolicyRule>,
)
    ensures
        deref_all(final(out)@) == deref_all(old(out)@) + rules@.filter(
            applies_to(*effect_class, *resource, *context),
        ),
{
    let ghost pred = applies_to(*effect_class, *resource, *context);
    let ghost start = deref_all(out@);
    let mut i: usize = 0;
    proof {
        reveal(Seq::filter);
        assert(rules@.take(0).filter(pred) =~= Seq::<PolicyRule>::empty());
        assert(deref_all(out@) =~= start + rules@.take(0).filter(pred));
    }
    while i < rules.len()
        invariant
            i <= rules@.len(),
            pred == applies_to(*effect_class, *resource, *context),
            deref_all(out@) == start + rules@.take(i as int).filter(pred),
        decreases rules@.len() - i,
    {
        let rule = &rules[i];
        let keep = rule.applies(effect_class, resource, context);
        let ghost before = out@;
        if keep {
            out.push(rule);
        }
        proof {
            reveal(Seq::filter);
            assert(rules@.take(i + 1).drop_last() =~= rules@.take(i as int));
            assert(rules@.take(i + 1).last() == rules@[i as int]);
            if keep {
                assert(deref_all(out@) =~= deref_all(before).push(*rule));
            } else {
                assert(deref_all(out@) =~= deref_all(before));
            }
        }
        i = i + 1;
    }
    proof {
        assert(rules@.take(rules@.len() as int) =~= rules@);
    }
}

impl PolicySet {
    /// The policies in evaluation order: tenant first, then workspace.
    pub fn in_order(&self) -> (r: Vec<&Policy>)
        ensures
            deref_all(r@) == policies_in_order(*self),
    {
        let mut policies: Vec<&Policy> = Vec::new();
        if let Some(policy) = &self.tenant {
            policies.push(policy);
        }
        if let Some(policy) = &self.workspace {
            policies.push(policy);
        }
        proof {
            assert(deref_all(policies@) =~= policies_in_order(*self));
        }
        policies
    }

    /// All rules that govern the proposal and whose conditions hold, tenant rules first.
    pub fn matching_rules(
        &self,
        effect_class: &EffectClass,
        resource: &ResourceSelector,
        context: &RuleContext<'_>,
    ) -> (r: Vec<&PolicyRule>)
        ensures
            deref_all(r@) == matching(*self, *effect_class, *resource, *context),
    {
        let ghost pred = applies_to(*effect_class, *resource, *context);
        let mut out: Vec<&PolicyRule> = Vec::new();
        proof {
            assert(deref_all(out@) =~= Seq::<PolicyRule>::empty());
        }
        if let Some(policy) = &self.tenant {
            collect_applicable(&policy.rules, effect_class, resource, context, &mut out);
        }
        let ghost mid = deref_all(out@);
        proof {
            reveal(Seq::filter);
            assert(mid =~= rules_of(self.tenant).filter(pred));
        }
        if let Some(policy) = &self.workspace {
            collect_applicable(&policy.rules, effect_class, resource, context, &mut out);
        }
        proof {
            reveal(Seq::filter);
            assert(deref_all(out@) =~= mid + rules_of(self.workspace).filter(pred));
            Seq::filter_distributes_over_add(rules_of(self.tenant), rules_of(self.workspace), pred);
        }
        out
    }

    /// The `(policy id, version)` pairs recorded on the decision row, in order.
    pub fn versions(&self) -> (r: Vec<(String, i32)>)
        ensures
            r@.len() == policies_in_order(*self).len(),
            forall|i: int| 0 <= i < r@.len() ==> (#[trigger] r@[i]).0@ == policies_in_order(*self)[i].id@
                && r@[i].1 == policies_in_order(*self)[i].version,
    {
        let policies = self.in_order();
        let mut out: Vec<(String, i32)> = Vec::new();
        let mut i: usize = 0;
        while i < policies.len()
            invariant
                deref_all(policies@) == policies_in_order(*self),
                i <= policies@.len(),
                out@.len() == i,
                forall|k: int| 0 <= k < i ==> (#[trigger] out@[k]).0@ == policies_in_order(*self)[k].id@
                    && out@[k].1 == policies_in_order(*self)[k].version,
            decreases policies@.len() - i,
        {
            let p = policies[i];
            proof {
                assert(deref_all(policies@)[i as int] == *p);
            }
            out.push((owned(p.id.as_str()), p.version));
            i = i + 1;
        }
        out
    }
}

/// One user rule.
#[derive(Debug, Clone, PartialEq, Eq)]
pub struct UserRule {
    /// The `rule_…` rule id.
    pub id: String,
    /// Owning user.
    pub user_id: String,
    /// Owning workspace.
    pub workspace_id: String,
    /// The effect class the rule governs.
    pub effect_class: EffectClass,
    /// The resource region the rule applies to.
    pub resource_selector: ResourceSelector,
    /// The decision (`ask | always | never`).
    pub decision: UserRuleDecision,
    /// Instant after which the rule is void.
    pub expires_at: Option<Timestamp>,
}

/// Whether a user rule governs the proposal for `user_id` and is active at `now`.
pub open spec fn user_rule_applies(
    rule: UserRule,
    user_id: Seq<char>,
    effect_class: EffectClass,
    resource: ResourceSelector,
    now: Timestamp,
) -> bool {
    &&& rule.user_id@ == user_id
    &&& rule.effect_class@ == effect_class@
    &&& selectors_overlap(rule.resource_selector, resource)
    &&& (rule.expires_at matches Some(e) ==> earlier(now@, e@))
}

impl UserRule {
    /// Whether the rule governs this proposal for this user and is active at `now`.
    pub fn applies(
        &self,
        user_id: &str,
        effect_class: &EffectClass,
        resource: &ResourceSelector,
        now: Timestamp,
    ) -> (r: bool)
        ensures
            r == user_rule_applies(*self, user_id@, *effect_class, *resource, now),
    {
        str_eq(self.user_id.as_str(), user_id) && self.effect_class.same(effect_class)
            && self.resource_selector.overlaps(resource) && match self.expires_at {
            None => true,
            Some(expires_at) => now.is_before(&expires_at),
        }
    }
}

/// The stored and wire form of a user-rule decision.
pub open spec fn user_rule_decision_name(d: UserRuleDecision) -> Seq<char> {
    match d {
        UserRuleDecision::Ask => "ask"@,
        UserRuleDecision::Always => "always"@,
        UserRuleDecision::Never => "never"@,
    }
}

/// Serialize a user-rule decision to its canonical stored and wire form.
pub fn user_rule_decision_str(decision: UserRuleDecision) -> (s: &'static str)
    ensures
        s@ == user_rule_decision_name(decision),
{
    match decision {
        UserRuleDecision::Ask => "ask",
        UserRuleDecision::Always => "always",
        UserRuleDecision::Never => "never",
    }
}

/// Whether a user-rule decision is permitted at `tier`: tier 4 never accepts `always`.
///
/// This single check is used both when storing a rule and when evaluating one, so a rule
/// cannot be stored as effective and then silently ignored.
pub fn validate_user_rule(
    rule_id: &str,
    effect_class: &EffectClass,
    decision: UserRuleDecision,
    tier: Tier,
) -> (r: Result<(), PolicyError>)
    ensures
        r is Err <==> (decision == UserRuleDecision::Always && tier@ == 4),
        r matches Err(e) ==> (e matches PolicyError::TierFourAlwaysRejected { rule_id: id, effect_class: c }
            && id@ == rule_id@ && c@ == effect_class@),
{
    if decision == UserRuleDecision::Always && tier.get() == 4 {
        return Err(
            PolicyError::TierFourAlwaysRejected {
                rule_id: owned(rule_id),
                effect_class: owned(effect_class.as_str()),
            },
        );
    }
    Ok(())
}

} // verus!
