//! The recovery decisions a recoverer applies to one run: the durable view it plans from,
//! and what each safe action resolves to.

use vstd::prelude::*;
use crate::text::{owned, str_eq};
use crate::runtime::protocol_state::ProtocolState;
use crate::runtime::recovery::plan::{DurableState, SafeAction};

verus! {

/// What recovery did with a run.
#[derive(Debug, Clone, PartialEq, Eq)]
pub enum RecoveryResolution {
    /// The run was already terminal.
    Terminal,
    /// The requested cancellation was honoured.
    Cancelled,
    /// An uncertain effect must be reconciled before the run continues.
    ReconciliationRequired {
        /// Effect record awaiting reconciliation.
        effect_id: String,
        /// The reconciliation strategy of its effect class.
        strategy: String,
    },
    /// The run stays parked.
    Waiting {
        /// `WAITING_*` state.
        state: String,
        /// Key a matching resolution must carry.
        key: String,
    },
    /// The run may resume at its next turn.
    Resumable,
}

/// The outcome of recovering one run.
#[derive(Debug, Clone, PartialEq, Eq)]
pub struct RecoveryReport {
    /// Run recovered.
    pub run_id: String,
    /// Generation the run holds.
    pub generation: u64,
    /// The safe action planned.
    pub action: SafeAction,
    /// What the action resolved to.
    pub resolution: RecoveryResolution,
    /// Attempts carrying another generation, discarded as stale.
    pub stale_attempts: usize,
}

impl RecoveryReport {
    /// Whether the run waits on reconciliation.
    pub fn requires_reconciliation(&self) -> (r: bool)
        ensures
            r == (self.resolution is ReconciliationRequired),
    {
        match self.resolution {
            RecoveryResolution::ReconciliationRequired { .. } => true,
            _ => false,
        }
    }
}

/// Whether an effect with this ledger status awaits reconciliation.
pub fn awaits_reconciliation(effect_status: &str) -> (r: bool)
    ensures
        r == (effect_status@ == "OUTCOME_UNKNOWN"@),
{
    str_eq(effect_status, "OUTCOME_UNKNOWN")
}

/// Copies of every string of `v`.
fn copy_strings(v: &Vec<String>) -> (r: Vec<String>)
    ensures
        r@.len() == v@.len(),
        forall|i: int| 0 <= i < v@.len() ==> (#[trigger] r@[i])@ == v@[i]@,
{
    let mut out: Vec<String> = Vec::new();
    let mut i: usize = 0;
    while i < v.len()
        invariant
            i <= v@.len(),
            out@.len() == i,
            forall|k: int| 0 <= k < i ==> (#[trigger] out@[k])@ == v@[k]@,
        decreases v@.len() - i,
    {
        out.push(owned(v[i].as_str()));
        i = i + 1;
    }
    out
}

/// The durable view of a run: its status, what its protocol state holds it parked on,
/// whether it is parked on a timer, event or takeover, and the unsettled effect (with the
/// tool call that reserved it) the ledger lists for it.
pub fn durable_state(
    run_status: &str,
    protocol: &ProtocolState,
    unsettled: Option<(&str, Option<&str>)>,
) -> (r: DurableState)
    ensures
        r.run_status@ == run_status@,
        r.cancellation_requested == protocol.cancellation_requested,
        r.pending_approvals@.len() == protocol.pending_approvals@.len(),
        forall|i: int| 0 <= i < r.pending_approvals@.len() ==> (#[trigger] r.pending_approvals@[i])@
            == protocol.pending_approvals@[i]@,
        r.open_questions@.len() == protocol.open_questions@.len(),
        forall|i: int| 0 <= i < r.open_questions@.len() ==> (#[trigger] r.open_questions@[i])@
            == protocol.open_questions@[i]@,
        r.child_agent_threads@.len() == protocol.child_agent_threads@.len(),
        forall|i: int| 0 <= i < r.child_agent_threads@.len() ==> (#[trigger] r.child_agent_threads@[i])@
            == protocol.child_agent_threads@[i]@,
        r.parked_on_external == (run_status@ == "WAITING_TIMER"@ || run_status@ == "WAITING_EVENT"@
            || run_status@ == "WAITING_TAKEOVER"@),
        match unsettled {
            None => r.unsettled_effect_id is None && r.unsettled_tool_call_id is None,
            Some((e, t)) => r.unsettled_effect_id matches Some(x) && x@ == e@ && match t {
                None => r.unsettled_tool_call_id is None,
                Some(tc) => r.unsettled_tool_call_id matches Some(y) && y@ == tc@,
            },
        },
{
    let (unsettled_effect_id, unsettled_tool_call_id) = match unsettled {
        None => (None, None),
        Some((e, t)) => (
            Some(owned(e)),
            match t {
                None => None,
                Some(tc) => Some(owned(tc)),
            },
        ),
    };
    DurableState {
        run_status: owned(run_status),
        cancellation_requested: protocol.cancellation_requested,
        pending_approvals: copy_strings(&protocol.pending_approvals),
        open_questions: copy_strings(&protocol.open_questions),
        child_agent_threads: copy_strings(&protocol.child_agent_threads),
        parked_on_external: str_eq(run_status, "WAITING_TIMER") || str_eq(run_status, "WAITING_EVENT")
            || str_eq(run_status, "WAITING_TAKEOVER"),
        unsettled_effect_id,
        unsettled_tool_call_id,
    }
}

/// What a safe action resolves to. A cancellation counts as honoured only when the run's
/// status after cancelling is `CANCELLED`; a reconciliation names the effect and the
/// strategy of its class.
pub fn resolution_for(action: &SafeAction, status_after_cancel: &str, strategy: &str) -> (r: RecoveryResolution)
    ensures
        match *action {
            SafeAction::Terminal => r == RecoveryResolution::Terminal,
            SafeAction::Cancel => r == (if status_after_cancel@ == "CANCELLED"@ {
                RecoveryResolution::Cancelled
            } else {
                RecoveryResolution::Terminal
            }),
            SafeAction::ReconcileEffect { effect_id, .. } => r matches RecoveryResolution::ReconciliationRequired {
                effect_id: e,
                strategy: s,
            } && e@ == effect_id@ && s@ == strategy@,
            SafeAction::Wait { state, key } => r matches RecoveryResolution::Waiting { state: s, key: k }
                && s@ == state@ && k@ == key@,
            SafeAction::Resume => r == RecoveryResolution::Resumable,
        },
{
    match action {
        SafeAction::Terminal => RecoveryResolution::Terminal,
        SafeAction::Cancel => {
            if str_eq(status_after_cancel, "CANCELLED") {
                RecoveryResolution::Cancelled
            } else {
                RecoveryResolution::Terminal
            }
        },
        SafeAction::ReconcileEffect { effect_id, .. } => RecoveryResolution::ReconciliationRequired {
            effect_id: owned(effect_id.as_str()),
            strategy: owned(strategy),
        },
        SafeAction::Wait { state, key } => RecoveryResolution::Waiting {
            state: owned(state.as_str()),
            key: owned(key.as_str()),
        },
        SafeAction::Resume => RecoveryResolution::Resumable,
    }
}

} // verus!
