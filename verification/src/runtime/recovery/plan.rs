//! The recovery decisions: what to do with a run, and who is stale.

use vstd::prelude::*;
use crate::text::{owned, str_eq};
use crate::runtime::recovery::RecoveryError;

verus! {

/// The durable view of a run that recovery decides from. Every field comes from protocol
/// state, the run/step/attempt tables or the effect ledger; none from semantic memory.
#[derive(Debug, Clone, PartialEq, Eq)]
pub struct DurableState {
    /// The run's current status.
    pub run_status: String,
    /// Whether a cancellation was requested before the crash.
    pub cancellation_requested: bool,
    /// Approvals the run is parked on.
    pub pending_approvals: Vec<String>,
    /// Questions the run is parked on.
    pub open_questions: Vec<String>,
    /// Child agents the run is parked on.
    pub child_agent_threads: Vec<String>,
    /// Whether the run is parked on a timer, event or takeover.
    pub parked_on_external: bool,
    /// `OUTCOME_UNKNOWN` effect the run reserved, if any.
    pub unsettled_effect_id: Option<String>,
    /// The tool call that reserved the unsettled effect, when the reservation recorded one.
    pub unsettled_tool_call_id: Option<String>,
}

impl Default for DurableState {
    /// An empty state: no status, nothing pending, nothing unsettled.
    fn default() -> (r: DurableState)
        ensures
            r.run_status@ == Seq::<char>::empty(),
            !r.cancellation_requested,
            r.pending_approvals@.len() == 0,
            r.open_questions@.len() == 0,
            r.child_agent_threads@.len() == 0,
            !r.parked_on_external,
            r.unsettled_effect_id is None,
            r.unsettled_tool_call_id is None,
    {
        DurableState {
            run_status: String::new(),
            cancellation_requested: false,
            pending_approvals: Vec::new(),
            open_questions: Vec::new(),
            child_agent_threads: Vec::new(),
            parked_on_external: false,
            unsettled_effect_id: None,
            unsettled_tool_call_id: None,
        }
    }
}

/// The run statuses that can no longer change.
pub open spec fn terminal_run_status(s: Seq<char>) -> bool {
    s == "SUCCEEDED"@ || s == "FAILED"@ || s == "CANCELLED"@ || s == "BLOCKED_UNRECOVERABLE"@
}

impl DurableState {
    /// Whether the run can no longer change.
    pub fn is_terminal(&self) -> (r: bool)
        ensures
            r == terminal_run_status(self.run_status@),
    {
        let s = self.run_status.as_str();
        str_eq(s, "SUCCEEDED") || str_eq(s, "FAILED") || str_eq(s, "CANCELLED") || str_eq(
            s,
            "BLOCKED_UNRECOVERABLE",
        )
    }
}

/// What recovery should do with a run.
#[derive(Debug, Clone, PartialEq, Eq)]
pub enum SafeAction {
    /// The run is already terminal; recovery changes nothing.
    Terminal,
    /// Honour the cancellation that was requested before the crash.
    Cancel,
    /// Reconcile the uncertain effect before anything else happens.
    ReconcileEffect {
        /// Effect record awaiting reconciliation.
        effect_id: String,
        /// Tool call that reserved it.
        tool_call_id: String,
    },
    /// Stay parked: only the resolution matching `key` releases the run.
    Wait {
        /// `WAITING_*` state the run holds.
        state: String,
        /// Key a matching resolution must carry.
        key: String,
    },
    /// Resume the run at its next turn.
    Resume,
}

impl SafeAction {
    /// Whether the action changes durable state.
    pub fn mutates(&self) -> (r: bool)
        ensures
            r == (self is Cancel || self is ReconcileEffect || self is Resume),
    {
        match self {
            SafeAction::Cancel => true,
            SafeAction::ReconcileEffect { .. } => true,
            SafeAction::Resume => true,
            _ => false,
        }
    }
}

/// The first key of a wait list, when there is one.
pub open spec fn first_key(keys: Seq<String>) -> Option<Seq<char>> {
    if keys.len() > 0 {
        Some(keys[0]@)
    } else {
        None
    }
}

/// The wait a parked status holds, as `(state, key)`: approval, question and child waits
/// are keyed by their first pending item; timer, event and takeover waits carry no key.
pub open spec fn wait_of(s: DurableState) -> Option<(Seq<char>, Seq<char>)> {
    let st = s.run_status@;
    if st == "WAITING_APPROVAL"@ {
        match first_key(s.pending_approvals@) {
            Some(k) => Some(("WAITING_APPROVAL"@, k)),
            None => None,
        }
    } else if st == "WAITING_QUESTION"@ {
        match first_key(s.open_questions@) {
            Some(k) => Some(("WAITING_QUESTION"@, k)),
            None => None,
        }
    } else if st == "WAITING_CHILD"@ {
        match first_key(s.child_agent_threads@) {
            Some(k) => Some(("WAITING_CHILD"@, k)),
            None => None,
        }
    } else if st == "WAITING_TIMER"@ || st == "WAITING_EVENT"@ || st == "WAITING_TAKEOVER"@ {
        Some((st, Seq::empty()))
    } else {
        None
    }
}

/// Whether `a` is the safe action for `s`: terminal runs stay as they are, then a
/// cancellation wins, then an uncertain effect is reconciled, then a parked run stays
/// parked, and only then does work resume.
pub open spec fn planned(s: DurableState, a: SafeAction) -> bool {
    if terminal_run_status(s.run_status@) {
        a == SafeAction::Terminal
    } else if s.cancellation_requested {
        a == SafeAction::Cancel
    } else if s.unsettled_effect_id is Some {
        a matches SafeAction::ReconcileEffect { effect_id, tool_call_id } && effect_id@ == s.unsettled_effect_id->0@
            && tool_call_id@ == match s.unsettled_tool_call_id {
            Some(t) => t@,
            None => Seq::<char>::empty(),
        }
    } else if wait_of(s) is Some {
        match wait_of(s) {
            Some((st, k)) => a matches SafeAction::Wait { state, key } && state@ == st && key@ == k,
            None => false,
        }
    } else if s.parked_on_external {
        a matches SafeAction::Wait { state, key } && state@ == s.run_status@ && key@ == Seq::<char>::empty()
    } else {
        a == SafeAction::Resume
    }
}

/// A wait keyed by the first item of `keys`, if any.
fn first_wait(state: &str, keys: &Vec<String>) -> (r: Option<(String, String)>)
    ensures
        match first_key(keys@) {
            Some(k) => r matches Some((s, key)) && s@ == state@ && key@ == k,
            None => r is None,
        },
{
    if keys.len() > 0 {
        Some((owned(state), owned(keys[0].as_str())))
    } else {
        None
    }
}

/// Decide the safe action for a run after a restart.
///
/// Deriving it from durable state alone is what makes a restart land on the same logical
/// point the crash interrupted.
pub fn plan_from(state: &DurableState) -> (r: SafeAction)
    ensures
        planned(*state, r),
{
    if state.is_terminal() {
        return SafeAction::Terminal;
    }
    if state.cancellation_requested {
        return SafeAction::Cancel;
    }
    if let Some(effect_id) = &state.unsettled_effect_id {
        // A missing tool-call id never lets the run resume: reconciliation is required by
        // the unsettled effect itself.
        let tool_call_id = match &state.unsettled_tool_call_id {
            Some(t) => owned(t.as_str()),
            None => String::new(),
        };
        return SafeAction::ReconcileEffect { effect_id: owned(effect_id.as_str()), tool_call_id };
    }
    let st = state.run_status.as_str();
    let wait = if str_eq(st, "WAITING_APPROVAL") {
        first_wait("WAITING_APPROVAL", &state.pending_approvals)
    } else if str_eq(st, "WAITING_QUESTION") {
        first_wait("WAITING_QUESTION", &state.open_questions)
    } else if str_eq(st, "WAITING_CHILD") {
        first_wait("WAITING_CHILD", &state.child_agent_threads)
    } else if str_eq(st, "WAITING_TIMER") || str_eq(st, "WAITING_EVENT") || str_eq(st, "WAITING_TAKEOVER") {
        Some((owned(st), String::new()))
    } else {
        None
    };
    if let Some((s, key)) = wait {
        return SafeAction::Wait { state: s, key };
    }
    if state.parked_on_external {
        return SafeAction::Wait { state: owned(st), key: String::new() };
    }
    SafeAction::Resume
}

/// Recovery never lets a run with an unsettled effect resume or wait, a cancellation
/// outranks everything but a terminal status, and resuming happens only when nothing is
/// pending.
pub proof fn law_recovery_precedence(s: DurableState, a: SafeAction)
    requires
        planned(s, a),
    ensures
        terminal_run_status(s.run_status@) <==> a == SafeAction::Terminal,
        !terminal_run_status(s.run_status@) && s.cancellation_requested ==> a == SafeAction::Cancel,
        !terminal_run_status(s.run_status@) && s.unsettled_effect_id is Some ==> (a is Cancel || a is ReconcileEffect),
        a is Resume ==> !s.cancellation_requested && s.unsettled_effect_id is None && wait_of(s) is None
            && !s.parked_on_external,
{
}

/// Whether an actor carrying an observed generation may act on a run.
#[derive(Debug, Clone, Copy, PartialEq, Eq, Structural)]
pub enum FenceDecision {
    /// The actor is current and may act.
    Current,
    /// The actor is behind and everything it produces must be discarded.
    Stale,
}

/// Fence an actor by generation: an actor behind the run's generation is stale, while an
/// equal or newer generation is current (a newer generation is how a restarted runtime
/// supersedes the one that died).
pub fn fence_decision(observed: u64, current: u64) -> (r: FenceDecision)
    ensures
        r == (if observed >= current {
            FenceDecision::Current
        } else {
            FenceDecision::Stale
        }),
{
    if observed >= current {
        FenceDecision::Current
    } else {
        FenceDecision::Stale
    }
}

/// Enforce the fence, returning the typed refusal for a stale actor.
pub fn fence(observed: u64, current: u64) -> (r: Result<(), RecoveryError>)
    ensures
        r is Ok <==> observed >= current,
        r is Err ==> r == Err::<(), RecoveryError>(RecoveryError::StaleGeneration { observed, current }),
{
    match fence_decision(observed, current) {
        FenceDecision::Current => Ok(()),
        FenceDecision::Stale => Err(RecoveryError::StaleGeneration { observed, current }),
    }
}

} // verus!
