//! The budget authority's decisions: whether a grant fits its parent, what a charge does,
//! what a parent has left and what capacity a budget allows.
//!
//! A refusal changes nothing: the caller writes the budget row and its usage event only
//! for what these functions return, and never touches an effect already in flight.

use vstd::prelude::*;
use crate::text::{owned, str_eq};
use crate::runtime::budgets::BudgetError;
use crate::runtime::budgets::limits::{
    Meter, MeterUsage, all_meters, applied, applied_entries, ensure_child_within_parent,
    exhausted_meters, first_exhausted, first_excess, first_unfit, has_meter, meter_value,
    remaining_of, sat_sub, set_entry, spent, fits_in,
};

verus! {

/// The aggregate type every usage event is stamped with.
pub const BUDGET_AGGREGATE: &'static str = "budget";

/// A stored budget.
#[derive(Debug, Clone, PartialEq, Eq)]
pub struct BudgetRecord {
    /// `bdg_…` identity.
    pub id: String,
    /// Owning workspace, for workspace-scoped budgets.
    pub workspace_id: Option<String>,
    /// Scope the budget governs.
    pub scope: String,
    /// The run or agent thread the scope points at.
    pub scope_ref: Option<String>,
    /// Limits in force.
    pub limits: MeterUsage,
    /// Consumption so far.
    pub consumed: MeterUsage,
    /// Parent budget, when the scope is nested.
    pub parent_budget_id: Option<String>,
    /// `active`, `exhausted` or `suspended`.
    pub status: String,
}

impl BudgetRecord {
    /// Whether the budget can be charged at all.
    pub fn is_active(&self) -> (r: bool)
        ensures
            r == (self.status@ == "active"@),
    {
        str_eq(self.status.as_str(), "active")
    }

    /// The meters at or beyond their limit, in canonical order.
    pub fn exhausted_meters(&self) -> (r: Vec<Meter>)
        ensures
            r@ == all_meters().filter(spent(self.limits@, self.consumed@)),
    {
        exhausted_meters(&self.limits, &self.consumed)
    }

    /// The `concurrency` limit this budget sets, when it sets one that fits a `usize`.
    pub fn concurrency_limit(&self) -> (r: Option<usize>)
        ensures
            r is Some <==> (has_meter(self.limits@, Meter::Concurrency) && meter_value(
                self.limits@,
                Meter::Concurrency,
            ) <= usize::MAX),
            r matches Some(n) ==> n == meter_value(self.limits@, Meter::Concurrency),
    {
        if !self.limits.has(Meter::Concurrency) {
            return None;
        }
        let limit = self.limits.get(Meter::Concurrency);
        if limit <= usize::MAX as u64 {
            Some(limit as usize)
        } else {
            None
        }
    }
}

/// A budget to grant.
#[derive(Debug, Clone, PartialEq, Eq)]
pub struct BudgetSpec {
    /// Owning workspace, when the scope is a workspace or below.
    pub workspace_id: Option<String>,
    /// `tenant`, `workspace`, `run` or `agent_thread`.
    pub scope: String,
    /// The run or agent thread the scope points at.
    pub scope_ref: Option<String>,
    /// Limits to grant.
    pub limits: MeterUsage,
    /// Parent budget, when the scope is nested.
    pub parent_budget_id: Option<String>,
}

/// What a charge did.
#[derive(Debug, Clone, PartialEq, Eq)]
pub struct ChargeOutcome {
    /// Budget that was charged.
    pub budget_id: String,
    /// Consumption after the charge.
    pub consumed: MeterUsage,
    /// Status after the charge.
    pub status: String,
    /// Whether the charge exhausted the budget.
    pub exhausted: bool,
}

impl ChargeOutcome {
    /// Whether the budget can still fund new work.
    pub fn may_continue(&self) -> (r: bool)
        ensures
            r == (!self.exhausted && self.status@ == "active"@),
    {
        !self.exhausted && str_eq(self.status.as_str(), "active")
    }
}

/// Whether a budget may be granted: a nested budget's limits must fit what its parent
/// has left. The parent must have been found; an absent parent is refused as not found.
pub fn check_grant(spec: &BudgetSpec, parent: Option<&BudgetRecord>) -> (r: Result<(), BudgetError>)
    ensures
        spec.parent_budget_id is None ==> r is Ok,
        spec.parent_budget_id matches Some(pid) ==> match parent {
            None => r matches Err(BudgetError::NotFound { id }) && id@ == pid@,
            Some(p) => (r is Ok <==> first_excess(spec.limits@, p.limits@, p.consumed@) is None) && (r matches Err(
                e,
            ) ==> (first_excess(spec.limits@, p.limits@, p.consumed@) matches Some(x) && e matches BudgetError::ExceedsParent {
                child,
                parent: q,
                meter,
                requested,
                remaining,
            } && child@ == "(new budget)"@ && q@ == pid@ && meter == x.0 && requested == x.1 && remaining == x.2)),
        },
{
    match &spec.parent_budget_id {
        None => Ok(()),
        Some(parent_id) => match parent {
            None => Err(BudgetError::NotFound { id: owned(parent_id.as_str()) }),
            Some(p) => ensure_child_within_parent(
                "(new budget)",
                parent_id.as_str(),
                &spec.limits,
                &p.limits,
                &p.consumed,
            ),
        },
    }
}

/// What a charge does to a budget. A charge with a meter that does not fit is refused as
/// exhausted, naming the first such meter in canonical order (the caller marks the
/// budget exhausted); otherwise the consumption grows by the charge, and the budget turns
/// `exhausted` exactly when some meter has nothing left.
pub fn decide_charge(budget_id: &str, record: &BudgetRecord, charges: &MeterUsage) -> (r: Result<
    ChargeOutcome,
    BudgetError,
>)
    ensures
        match first_unfit(record.limits@, record.consumed@, charges@) {
            Some((meter, consumed, limit)) => r matches Err(
                BudgetError::Exhausted { budget_id: id, meter: m, consumed: c, limit: l },
            ) && id@ == budget_id@ && m == meter && c == consumed && l == limit,
            None => r matches Ok(o) && o.budget_id@ == budget_id@ && o.consumed@ == applied_entries(
                record.consumed@,
                charges@,
            ) && o.exhausted == (all_meters().filter(spent(record.limits@, o.consumed@)).len() > 0)
                && o.status@ == (if o.exhausted {
                "exhausted"@
            } else {
                "active"@
            }),
        },
{
    match first_exhausted(&record.limits, &record.consumed, charges) {
        Some((meter, consumed, limit)) => {
            return Err(BudgetError::Exhausted { budget_id: owned(budget_id), meter, consumed, limit });
        },
        None => {},
    }
    let next = applied(&record.consumed, charges);
    let meters = exhausted_meters(&record.limits, &next);
    let exhausted = meters.len() > 0;
    let status = if exhausted {
        "exhausted"
    } else {
        "active"
    };
    Ok(ChargeOutcome { budget_id: owned(budget_id), consumed: next, status: owned(status), exhausted })
}

/// The concurrency a budget allows: none once it is not active, its `concurrency` limit
/// otherwise (unbounded when it sets none).
pub fn capacity_of(record: &BudgetRecord) -> (r: Option<usize>)
    ensures
        record.status@ != "active"@ ==> r == Some(0usize),
        record.status@ == "active"@ ==> (r is Some <==> (has_meter(record.limits@, Meter::Concurrency)
            && meter_value(record.limits@, Meter::Concurrency) <= usize::MAX)),
        record.status@ == "active"@ ==> (r matches Some(n) ==> n == meter_value(record.limits@, Meter::Concurrency)),
{
    if !record.is_active() {
        return Some(0);
    }
    record.concurrency_limit()
}

/// What a budget has left on each meter it bounds, in canonical order.
pub fn remaining_allowance(record: &BudgetRecord) -> (r: MeterUsage)
    ensures
        forall|m: Meter| #[trigger] has_meter(r@, m) == has_meter(record.limits@, m),
        forall|m: Meter| has_meter(record.limits@, m) ==> Some(#[trigger] meter_value(r@, m)) == remaining_of(
            record.limits@,
            record.consumed@,
            m,
        ),
{
    let mut remaining = MeterUsage::new();
    let entries = record.limits.entries();
    let mut i: usize = 0;
    while i < entries.len()
        invariant
            i <= entries@.len(),
            entries@ == record.limits@,
            crate::runtime::budgets::limits::unique_meters(entries@),
            forall|m: Meter| #[trigger] has_meter(remaining@, m) == exists|k: int| 0 <= k < i && (
            #[trigger] entries@[k]).0 == m,
            forall|m: Meter| #[trigger] has_meter(remaining@, m) ==> meter_value(remaining@, m) == sat_sub(
                meter_value(record.limits@, m),
                meter_value(record.consumed@, m),
            ),
        decreases entries@.len() - i,
    {
        let (meter, limit) = entries[i];
        proof {
            crate::runtime::budgets::limits::lemma_value_at(entries@, i as int);
        }
        let used = record.consumed.get(meter);
        remaining.set(meter, limit.saturating_sub(used));
        proof {
            assert forall|m: Meter| #[trigger] has_meter(remaining@, m) == exists|k: int| 0 <= k < i + 1 && (
            #[trigger] entries@[k]).0 == m by {
                if m == meter {
                    assert(entries@[i as int].0 == m);
                }
            }
        }
        i = i + 1;
    }
    proof {
        assert forall|m: Meter| #[trigger] has_meter(remaining@, m) == has_meter(record.limits@, m) by {
            if has_meter(record.limits@, m) {
                let k = choose|k: int| 0 <= k < entries@.len() && (#[trigger] entries@[k]).0 == m;
                assert(entries@[k].0 == m);
            }
        }
    }
    remaining
}

/// A child granted under `check_grant` never exceeds what its parent has left on any
/// meter the parent bounds.
pub proof fn law_child_within_parent_remaining(
    child: Seq<(Meter, u64)>,
    parent_limits: Seq<(Meter, u64)>,
    parent_consumed: Seq<(Meter, u64)>,
)
    requires
        first_excess(child, parent_limits, parent_consumed) is None,
    ensures
        forall|i: int| 0 <= i < child.len() ==> match #[trigger] remaining_of(parent_limits, parent_consumed, child[i].0) {
            Some(left) => child[i].1 <= left,
            None => true,
        },
    decreases child.len(),
{
    if child.len() > 0 {
        law_child_within_parent_remaining(child.drop_first(), parent_limits, parent_consumed);
        assert forall|i: int| 0 <= i < child.len() implies match #[trigger] remaining_of(
            parent_limits,
            parent_consumed,
            child[i].0,
        ) {
            Some(left) => child[i].1 <= left,
            None => true,
        } by {
            if i > 0 {
                assert(child[i] == child.drop_first()[i - 1]);
            }
        }
    }
}

/// A charge is accepted exactly when every charged meter fits within its limit.
pub proof fn law_accepted_charge_fits(
    limits: Seq<(Meter, u64)>,
    consumed: Seq<(Meter, u64)>,
    charges: Seq<(Meter, u64)>,
)
    ensures
        first_unfit(limits, consumed, charges) is None <==> forall|i: int| 0 <= i < charges.len() ==> fits_in(
            limits,
            consumed,
            (#[trigger] charges[i]).0,
            charges[i].1,
        ),
    decreases charges.len(),
{
    if charges.len() > 0 {
        law_accepted_charge_fits(limits, consumed, charges.drop_first());
        if first_unfit(limits, consumed, charges) is None {
            assert forall|i: int| 0 <= i < charges.len() implies fits_in(
                limits,
                consumed,
                (#[trigger] charges[i]).0,
                charges[i].1,
            ) by {
                if i > 0 {
                    assert(charges[i] == charges.drop_first()[i - 1]);
                }
            }
        } else if fits_in(limits, consumed, charges[0].0, charges[0].1) {
            let j = choose|j: int| 0 <= j < charges.drop_first().len() && !fits_in(
                limits,
                consumed,
                (#[trigger] charges.drop_first()[j]).0,
                charges.drop_first()[j].1,
            );
            assert(charges[j + 1] == charges.drop_first()[j]);
        }
    }
}

} // verus!
