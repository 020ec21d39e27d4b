//! Durable protocol state for exact resume.
//!
//! Recovery never consults semantic memory. It reads the canonical event stream, the
//! protocol state kept here, checkpoints, evidence and the effect ledger, and from those
//! decides the next safe action. The decision is a function of the persisted state alone,
//! and an effect whose outcome is unknown is never retried by it: it is reported for
//! reconciliation.

use vstd::prelude::*;
use crate::text::{owned, str_eq, str_starts_with, has_prefix};

verus! {

/// Kind of pending wait that parked a run.
#[derive(Debug, Clone, Copy, PartialEq, Eq, Structural)]
pub enum WaitKind {
    /// Waiting for an approval receipt.
    Approval,
    /// Waiting for a human answer to a question.
    Question,
    /// Waiting for an external event.
    Event,
    /// Waiting for a timer to fire.
    Timer,
    /// Waiting for a child agent thread.
    Child,
    /// Waiting for a human to take over or hand back the browser/computer.
    Takeover,
}

/// A durable wait entry.
#[derive(Debug, Clone, PartialEq, Eq)]
pub struct Wait {
    /// What the run is waiting for.
    pub kind: WaitKind,
    /// Correlation key (approval id, question id, timer key, child thread id).
    pub key: String,
    /// RFC 3339 expiry, when the wait is time-bounded.
    pub expires_at: Option<String>,
}

/// Two waits hold the same kind, key and expiry.
pub open spec fn same_wait(a: Wait, b: Wait) -> bool {
    &&& a.kind == b.kind
    &&& a.key@ == b.key@
    &&& match (a.expires_at, b.expires_at) {
        (Some(x), Some(y)) => x@ == y@,
        (None, None) => true,
        _ => false,
    }
}

impl Wait {
    /// A copy of this wait.
    pub fn duplicate(&self) -> (r: Wait)
        ensures
            same_wait(r, *self),
    {
        Wait {
            kind: self.kind,
            key: owned(self.key.as_str()),
            expires_at: match &self.expires_at {
                Some(e) => Some(owned(e.as_str())),
                None => None,
            },
        }
    }
}

/// A tool call that was dispatched (or reserved) but not yet settled.
#[derive(Debug, Clone, PartialEq, Eq)]
pub struct PendingToolCall {
    /// Tool call id (`tc_…`).
    pub tool_call_id: String,
    /// Tool name.
    pub tool_name: String,
    /// Dispatch token presented to the host.
    pub dispatch_token: String,
    /// Effect record id (`eff_…`) reserved for this call.
    pub effect_id: String,
    /// Effect ledger status recorded at dispatch time.
    pub effect_status: String,
}

/// A model call that was started but whose completion was not durably recorded.
#[derive(Debug, Clone, PartialEq, Eq)]
pub struct PendingModelCall {
    /// Provider-normalized call id.
    pub call_id: String,
    /// Model route id.
    pub route_id: String,
}

/// Who currently drives the managed browser session.
#[derive(Debug, Clone, Copy, PartialEq, Eq, Structural)]
pub enum BrowserControlHolder {
    /// The agent drives input.
    Agent,
    /// A human took over; agent input is fenced.
    User,
    /// Nobody holds control.
    Nobody,
}

/// Browser control state.
#[derive(Debug, Clone, PartialEq, Eq)]
pub struct BrowserControl {
    /// Managed browser session id.
    pub session_id: String,
    /// Current holder of input control.
    pub holder: BrowserControlHolder,
    /// RFC 3339 timestamp of the last control change.
    pub since: Option<String>,
}

/// Reference to a durable terminal session and its byte cursor.
#[derive(Debug, Clone, PartialEq, Eq)]
pub struct TerminalSessionRef {
    /// Terminal session id.
    pub id: String,
    /// Durable byte offset for replay.
    pub cursor: Option<String>,
}

/// The complete durable protocol state of one run.
#[derive(Debug, Clone, PartialEq, Eq)]
pub struct ProtocolState {
    /// Run id (`run_…`).
    pub run_id: String,
    /// Generation this state was written under.
    pub generation: i64,
    /// Model call in flight, if any.
    pub pending_model_call: Option<PendingModelCall>,
    /// Tool calls dispatched but not settled.
    pub pending_tool_calls: Vec<PendingToolCall>,
    /// Approval request ids awaiting decision.
    pub pending_approvals: Vec<String>,
    /// Question ids awaiting an answer.
    pub open_questions: Vec<String>,
    /// Logical waits.
    pub waits: Vec<Wait>,
    /// Browser control state, when a session is attached.
    pub browser_control: Option<BrowserControl>,
    /// Terminal sessions attached to the run.
    pub terminal_sessions: Vec<TerminalSessionRef>,
    /// Child agent threads this run is waiting on.
    pub child_agent_threads: Vec<String>,
    /// Whether cancellation was requested.
    pub cancellation_requested: bool,
    /// RFC 3339 timestamp of the cancellation request.
    pub cancellation_at: Option<String>,
    /// Last installed compaction epoch, so recovery does not re-install a stale one.
    pub last_compaction_epoch_id: Option<String>,
}

impl ProtocolState {
    /// Empty state for a run at a given generation.
    pub fn new(run_id: &str, generation: i64) -> (r: ProtocolState)
        ensures
            r.run_id@ == run_id@,
            r.generation == generation,
            r.pending_model_call is None,
            r.pending_tool_calls@.len() == 0,
            r.pending_approvals@.len() == 0,
            r.open_questions@.len() == 0,
            r.waits@.len() == 0,
            r.browser_control is None,
            r.terminal_sessions@.len() == 0,
            r.child_agent_threads@.len() == 0,
            !r.cancellation_requested,
            r.cancellation_at is None,
            r.last_compaction_epoch_id is None,
    {
        ProtocolState {
            run_id: owned(run_id),
            generation,
            pending_model_call: None,
            pending_tool_calls: Vec::new(),
            pending_approvals: Vec::new(),
            open_questions: Vec::new(),
            waits: Vec::new(),
            browser_control: None,
            terminal_sessions: Vec::new(),
            child_agent_threads: Vec::new(),
            cancellation_requested: false,
            cancellation_at: None,
            last_compaction_epoch_id: None,
        }
    }
}

/// The next safe action after a crash or restart, derived from durable state only.
#[derive(Debug, Clone, PartialEq, Eq)]
pub enum NextAction {
    /// Honour a cancellation request.
    Cancel,
    /// Reconcile an effect whose outcome is unknown; never blind-retry.
    ReconcileEffect {
        /// Effect record to reconcile.
        effect_id: String,
        /// Tool call that reserved it.
        tool_call_id: String,
    },
    /// Wait for the pending approval.
    WaitApproval {
        /// Approval request id.
        approval_id: String,
    },
    /// Wait for the answer to an open question.
    WaitQuestion {
        /// Question id.
        question_id: String,
    },
    /// Wait for a timer or external event.
    WaitFor {
        /// Wait entry.
        wait: Wait,
    },
    /// Wait for a child agent thread to join.
    WaitChild {
        /// Child agent thread id.
        child_agent_thread_id: String,
    },
    /// The browser is under human control: agent input stays fenced.
    AwaitHandback {
        /// Browser session id.
        session_id: String,
    },
    /// Resume the turn loop.
    Continue,
}

/// Effect statuses that mean the external outcome is not settled.
pub open spec fn unsettled_status(s: Seq<char>) -> bool {
    s == "DISPATCHED"@ || s == "OUTCOME_UNKNOWN"@ || s == "RECONCILING"@
}

/// Whether an effect status means the external outcome is not settled.
pub fn is_unsettled(effect_status: &str) -> (r: bool)
    ensures
        r == unsettled_status(effect_status@),
{
    str_eq(effect_status, "DISPATCHED") || str_eq(effect_status, "OUTCOME_UNKNOWN") || str_eq(
        effect_status,
        "RECONCILING",
    )
}

/// Whether `i` is the first pending tool call whose effect is unsettled.
pub open spec fn first_unsettled(calls: Seq<PendingToolCall>, i: int) -> bool {
    &&& 0 <= i < calls.len()
    &&& unsettled_status(calls[i].effect_status@)
    &&& forall|j: int| 0 <= j < i ==> !unsettled_status((#[trigger] calls[j]).effect_status@)
}

/// Whether some pending tool call is unsettled.
pub open spec fn any_unsettled(calls: Seq<PendingToolCall>) -> bool {
    exists|i: int| 0 <= i < calls.len() && unsettled_status((#[trigger] calls[i]).effect_status@)
}

/// Whether the browser is held by a human.
pub open spec fn human_holds_browser(s: ProtocolState) -> bool {
    s.browser_control matches Some(c) && c.holder == BrowserControlHolder::User
}

/// Whether `a` is the next safe action for `s`: cancellation first, then unresolved
/// effects (reconciled, never retried), then approvals, questions, a human-held browser,
/// children and other waits, then the normal loop.
pub open spec fn next_action_of(s: ProtocolState, a: NextAction) -> bool {
    if s.cancellation_requested {
        a == NextAction::Cancel
    } else if any_unsettled(s.pending_tool_calls@) {
        exists|i: int| first_unsettled(s.pending_tool_calls@, i) && (a matches NextAction::ReconcileEffect {
            effect_id,
            tool_call_id,
        } && effect_id@ == s.pending_tool_calls@[i].effect_id@ && tool_call_id@
            == s.pending_tool_calls@[i].tool_call_id@)
    } else if s.pending_approvals@.len() > 0 {
        a matches NextAction::WaitApproval { approval_id } && approval_id@ == s.pending_approvals@[0]@
    } else if s.open_questions@.len() > 0 {
        a matches NextAction::WaitQuestion { question_id } && question_id@ == s.open_questions@[0]@
    } else if human_holds_browser(s) {
        a matches NextAction::AwaitHandback { session_id } && session_id@ == s.browser_control->0.session_id@
    } else if s.child_agent_threads@.len() > 0 {
        a matches NextAction::WaitChild { child_agent_thread_id } && child_agent_thread_id@
            == s.child_agent_threads@[0]@
    } else if s.waits@.len() > 0 {
        a matches NextAction::WaitFor { wait } && same_wait(wait, s.waits@[0])
    } else {
        a == NextAction::Continue
    }
}

/// Decide the next safe action from durable protocol state alone.
pub fn next_safe_action(state: &ProtocolState) -> (r: NextAction)
    ensures
        next_action_of(*state, r),
{
    if state.cancellation_requested {
        return NextAction::Cancel;
    }
    let mut i: usize = 0;
    while i < state.pending_tool_calls.len()
        invariant
            i <= state.pending_tool_calls@.len(),
            !state.cancellation_requested,
            forall|j: int| 0 <= j < i ==> !unsettled_status((#[trigger] state.pending_tool_calls@[j]).effect_status@),
        decreases state.pending_tool_calls@.len() - i,
    {
        let call = &state.pending_tool_calls[i];
        if is_unsettled(call.effect_status.as_str()) {
            proof {
                assert(first_unsettled(state.pending_tool_calls@, i as int));
            }
            return NextAction::ReconcileEffect {
                effect_id: owned(call.effect_id.as_str()),
                tool_call_id: owned(call.tool_call_id.as_str()),
            };
        }
        i = i + 1;
    }
    if state.pending_approvals.len() > 0 {
        return NextAction::WaitApproval { approval_id: owned(state.pending_approvals[0].as_str()) };
    }
    if state.open_questions.len() > 0 {
        return NextAction::WaitQuestion { question_id: owned(state.open_questions[0].as_str()) };
    }
    if let Some(control) = &state.browser_control {
        if control.holder == BrowserControlHolder::User {
            return NextAction::AwaitHandback { session_id: owned(control.session_id.as_str()) };
        }
    }
    if state.child_agent_threads.len() > 0 {
        return NextAction::WaitChild { child_agent_thread_id: owned(state.child_agent_threads[0].as_str()) };
    }
    if state.waits.len() > 0 {
        return NextAction::WaitFor { wait: state.waits[0].duplicate() };
    }
    NextAction::Continue
}

/// An unsettled effect is never followed by continuing the loop, and only cancellation
/// outranks reconciling it.
pub proof fn law_unsettled_effect_is_never_retried(s: ProtocolState, a: NextAction)
    requires
        next_action_of(s, a),
        any_unsettled(s.pending_tool_calls@),
    ensures
        a is Cancel || a is ReconcileEffect,
        a != NextAction::Continue,
{
}

/// Errors from the protocol-state store.
#[derive(Debug, Clone, PartialEq, Eq)]
pub enum ProtocolStateError {
    /// The database rejected the operation.
    Database(String),
    /// The tenant context could not be established.
    Schema(String),
    /// The requested run has no durable protocol state.
    NotFound(String),
    /// A JSON column could not be decoded.
    Decode(String),
}

/// The durable protocol-state store: one row per run.
pub struct ProtocolStateStore;

/// `s` with every leading `prefix` removed (`str::trim_start_matches`).
pub open spec fn trim_prefixes(s: Seq<char>, prefix: Seq<char>) -> Seq<char>
    decreases s.len(),
{
    if prefix.len() > 0 && has_prefix(s, prefix) {
        trim_prefixes(s.skip(prefix.len() as int), prefix)
    } else {
        s
    }
}

/// Whether `p` occurs in `s` at position `start`.
fn prefix_at(s: &Vec<char>, start: usize, p: &Vec<char>) -> (r: bool)
    requires
        start <= s@.len(),
    ensures
        r == has_prefix(s@.skip(start as int), p@),
{
    let n = s.len();
    if p.len() > n - start {
        return false;
    }
    let mut i: usize = 0;
    while i < p.len()
        invariant
            n == s@.len(),
            start <= s@.len(),
            p@.len() <= s@.len() - start,
            i <= p@.len(),
            forall|j: int| 0 <= j < i ==> s@[start + j] == p@[j],
        decreases p@.len() - i,
    {
        if s[start + i] != p[i] {
            proof {
                assert(s@.skip(start as int).take(p@.len() as int)[i as int] != p@[i as int]);
            }
            return false;
        }
        i = i + 1;
    }
    proof {
        assert(s@.skip(start as int).take(p@.len() as int) =~= p@);
    }
    true
}

/// The protocol-state row id of a run: `pst_` and the run id without its `run_` prefix.
pub fn protocol_row_id(run_id: &str) -> (r: String)
    ensures
        r@ == "pst_"@ + trim_prefixes(run_id@, "run_"@),
{
    let chars = crate::text::chars_of(run_id);
    let prefix = crate::text::chars_of("run_");
    proof {
        reveal_strlit("run_");
        assert(chars@.skip(0) =~= chars@);
    }
    let n = chars.len();
    let mut start: usize = 0;
    while prefix_at(&chars, start, &prefix)
        invariant
            n == chars@.len(),
            chars@ == run_id@,
            prefix@ == "run_"@,
            prefix@.len() == 4,
            start <= chars@.len(),
            trim_prefixes(run_id@, "run_"@) == trim_prefixes(chars@.skip(start as int), "run_"@),
        decreases chars@.len() - start,
    {
        proof {
            assert(chars@.skip(start as int).skip(4) =~= chars@.skip(start + 4));
        }
        start = start + 4;
    }
    let mut out = owned("pst_");
    let mut k: usize = start;
    while k < chars.len()
        invariant
            start <= k <= chars@.len(),
            out@ == "pst_"@ + chars@.subrange(start as int, k as int),
        decreases chars@.len() - k,
    {
        crate::text::push_char(&mut out, chars[k]);
        proof {
            assert(chars@.subrange(start as int, k + 1) =~= chars@.subrange(start as int, k as int).push(chars@[k as int]));
        }
        k = k + 1;
    }
    proof {
        assert(chars@.subrange(start as int, chars@.len() as int) =~= chars@.skip(start as int));
    }
    out
}

} // verus!
