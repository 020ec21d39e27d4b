//! The decisions behind agent-thread rows, mailbox, delegation, handoff and join.
//!
//! Each operation locks its rows, and these functions decide from what was read whether
//! the change may happen and what it is. A rejected lifecycle transition, a widening
//! delegation, a mismatched handoff or a stale generation is refused before anything is
//! written, so state and event log never disagree.

use vstd::prelude::*;
use crate::text::{owned, str_eq, decimal_text, decimal_digit, u64_text, i64_text, int_text};
use crate::time::Timestamp;
use crate::runtime::agents::{
    AgentKind, AgentThreadStatus, RuntimeError, allowed, check_lifecycle_policy, event_name_of,
    agent_event_name, fence, policy_refusal, status_name, TEAMMATE_CANNOT_JOIN,
};
use crate::policy::rules::{all_digits, decimal_value, is_digit, digit_value};
use crate::text::{chars_of, quoted, debug_quoted};

verus! {

/// Repository path of this module's canonical owner.
pub const AGENTS_OWNER: &'static str = "crates/server/src/runtime/agents";

/// A thread to provision.
#[derive(Debug, Clone, PartialEq, Eq)]
pub struct NewAgentThread {
    /// Owning workspace.
    pub workspace_id: String,
    /// Teammate or worker.
    pub agent_kind: AgentKind,
    /// Agent definition.
    pub definition_id: Option<String>,
    /// Parent thread.
    pub parent_id: Option<String>,
    /// Work node it serves.
    pub work_node_id: Option<String>,
    /// Capability projection it holds.
    pub capability_projection_id: Option<String>,
    /// Execution target it runs on.
    pub execution_target_id: Option<String>,
    /// Budget it draws on.
    pub budget_id: Option<String>,
}

impl NewAgentThread {
    /// A thread of `agent_kind` in `workspace_id` with nothing else set.
    pub fn new(workspace_id: &str, agent_kind: AgentKind) -> (r: NewAgentThread)
        ensures
            r.workspace_id@ == workspace_id@,
            r.agent_kind == agent_kind,
            r.definition_id is None,
            r.parent_id is None,
            r.work_node_id is None,
            r.capability_projection_id is None,
            r.execution_target_id is None,
            r.budget_id is None,
    {
        NewAgentThread {
            workspace_id: owned(workspace_id),
            agent_kind,
            definition_id: None,
            parent_id: None,
            work_node_id: None,
            capability_projection_id: None,
            execution_target_id: None,
            budget_id: None,
        }
    }

    /// The same thread serving `node`.
    pub fn with_work_node(self, node: String) -> (r: NewAgentThread)
        ensures
            r == (NewAgentThread { work_node_id: Some(node), ..self }),
    {
        NewAgentThread { work_node_id: Some(node), ..self }
    }

    /// The same thread holding `projection`.
    pub fn with_capability_projection(self, projection: String) -> (r: NewAgentThread)
        ensures
            r == (NewAgentThread { capability_projection_id: Some(projection), ..self }),
    {
        NewAgentThread { capability_projection_id: Some(projection), ..self }
    }
}

/// A stored agent thread.
#[derive(Debug, Clone, PartialEq, Eq)]
pub struct AgentThread {
    /// Thread id.
    pub id: String,
    /// Owning tenant.
    pub tenant_id: String,
    /// Owning workspace.
    pub workspace_id: String,
    /// Teammate or worker.
    pub agent_kind: AgentKind,
    /// Agent definition.
    pub definition_id: Option<String>,
    /// Parent thread.
    pub parent_id: Option<String>,
    /// Work node it serves.
    pub work_node_id: Option<String>,
    /// Capability projection it holds.
    pub capability_projection_id: Option<String>,
    /// Controller generation.
    pub generation: u64,
    /// Lifecycle status.
    pub status: AgentThreadStatus,
    /// Last consumed mailbox sequence number, as stored.
    pub mailbox_cursor: Option<String>,
    /// Execution target it runs on.
    pub execution_target_id: Option<String>,
    /// Budget it draws on.
    pub budget_id: Option<String>,
    /// Why it was suspended.
    pub suspended_reason: Option<String>,
    /// The thread it is handing off to.
    pub handoff_to_agent_thread_id: Option<String>,
    /// When the handoff started.
    pub handoff_at: Option<Timestamp>,
    /// When it was created.
    pub created_at: Timestamp,
    /// When it last changed.
    pub updated_at: Timestamp,
}

/// A parent → child delegation edge.
#[derive(Debug, Clone, PartialEq, Eq)]
pub struct DelegationEdge {
    /// Edge id.
    pub id: String,
    /// Owning tenant.
    pub tenant_id: String,
    /// Delegating thread.
    pub parent_agent_thread_id: String,
    /// Delegated thread.
    pub child_agent_thread_id: String,
    /// Work node delegated.
    pub work_node_id: Option<String>,
    /// Capability the delegation records.
    pub delegation_capability_id: Option<String>,
    /// When it was delegated.
    pub delegated_at: Timestamp,
    /// When the child joined.
    pub joined_at: Option<Timestamp>,
}

/// A delegation to create.
#[derive(Debug, Clone, PartialEq, Eq)]
pub struct NewDelegation {
    /// The child thread to provision.
    pub child: NewAgentThread,
    /// Work node delegated.
    pub work_node_id: Option<String>,
    /// Capability to record; the parent's projection when absent.
    pub delegation_capability_id: Option<String>,
    /// First instruction delivered to the child's mailbox.
    pub instruction: Option<String>,
}

impl NewDelegation {
    /// Delegate `child`, on its own work node, recording the parent's capability.
    pub fn new(child: NewAgentThread) -> (r: NewDelegation)
        ensures
            r.child == child,
            r.work_node_id == child.work_node_id,
            r.delegation_capability_id is None,
            r.instruction is None,
    {
        let work_node_id = match &child.work_node_id {
            Some(n) => Some(n.clone()),
            None => None,
        };
        NewDelegation { child, work_node_id, delegation_capability_id: None, instruction: None }
    }
}

impl NewDelegation {
    /// The same delegation, delivering `instruction` to the child first.
    pub fn with_instruction(self, instruction: &str) -> (r: NewDelegation)
        ensures
            r.child == self.child,
            r.work_node_id == self.work_node_id,
            r.delegation_capability_id == self.delegation_capability_id,
            r.instruction matches Some(i) && i@ == instruction@,
    {
        NewDelegation { instruction: Some(owned(instruction)), ..self }
    }

    /// The same delegation of `work_node_id`.
    pub fn with_work_node(self, work_node_id: String) -> (r: NewDelegation)
        ensures
            r == (NewDelegation { work_node_id: Some(work_node_id), ..self }),
    {
        NewDelegation { work_node_id: Some(work_node_id), ..self }
    }
}

/// A delegation that was made: the child thread and its edge.
#[derive(Debug, Clone, PartialEq, Eq)]
pub struct Delegated {
    /// The child thread provisioned.
    pub child: AgentThread,
    /// The delegation edge.
    pub edge: DelegationEdge,
}

/// Whether a delegation narrows (or keeps) the parent's authority; an implementation
/// refuses a widening delegation with a typed error.
pub trait DelegationNarrowingCheck {
    /// Whether this check decides as [`DelegationNarrowingCheck::accepts`] and
    /// [`DelegationNarrowingCheck::refuses_with`] say; a check whose rule is not written
    /// down in the library promises nothing more.
    open spec fn decides_by_spec(&self) -> bool {
        false
    }

    /// Whether this check accepts the delegation of `child` by `parent` recording
    /// `recorded`.
    open spec fn accepts(&self, parent: AgentThread, child: NewAgentThread, recorded: Option<Seq<char>>) -> bool {
        false
    }

    /// Whether `e` is an error this check refuses such a delegation with.
    open spec fn refuses_with(&self, parent: AgentThread, child: NewAgentThread, recorded: Option<Seq<char>>, e: RuntimeError) -> bool {
        false
    }

    /// Check the delegation of `child` by `parent`, recording `delegated_capability_id`.
    fn check(
        &self,
        parent: &AgentThread,
        child: &NewAgentThread,
        delegated_capability_id: Option<&str>,
    ) -> (r: Result<(), RuntimeError>)
        ensures
            self.decides_by_spec() ==> (r is Ok <==> self.accepts(*parent, *child, opt_view(delegated_capability_id))),
            self.decides_by_spec() ==> (r matches Err(e) ==> self.refuses_with(
                *parent,
                *child,
                opt_view(delegated_capability_id),
                e,
            )),
    ;
}

/// The structural check: a child records exactly the parent's capability projection, or
/// none at all when the parent holds none.
#[derive(Debug, Clone, Copy, Default)]
pub struct StructuralDelegationCheck;

/// Whether two optional ids are both absent or the same text.
pub open spec fn same_id(a: Option<String>, b: Option<Seq<char>>) -> bool {
    match (a, b) {
        (Some(x), Some(y)) => x@ == y,
        (None, None) => true,
        _ => false,
    }
}

/// Whether the structural check accepts the delegation: with a parent capability, the
/// recorded capability and the child's projection both equal it; without one, neither is
/// recorded.
pub open spec fn structurally_narrow(
    parent_capability: Option<String>,
    recorded: Option<Seq<char>>,
    child_capability: Option<String>,
) -> bool {
    match parent_capability {
        Some(p) => recorded == Some(p@) && (child_capability matches Some(c) && c@ == p@),
        None => recorded is None && child_capability is None,
    }
}

/// The view of an optional string slice.
pub open spec fn opt_view(o: Option<&str>) -> Option<Seq<char>> {
    match o {
        Some(s) => Some(s@),
        None => None,
    }
}

impl StructuralDelegationCheck {
    /// Apply the structural check.
    pub fn check_structure(
        parent: &AgentThread,
        child: &NewAgentThread,
        delegated_capability_id: Option<&str>,
    ) -> (r: Result<(), RuntimeError>)
        ensures
            r is Ok <==> structurally_narrow(
                parent.capability_projection_id,
                opt_view(delegated_capability_id),
                child.capability_projection_id,
            ),
            r matches Err(e) ==> (e matches RuntimeError::CapabilityWideningRejected { detail } && detail@ == if parent.capability_projection_id is Some {
                "child must record the parent's delegated capability id"@
            } else {
                "parent holds no delegation capability, so the child cannot record one"@
            }),
    {
        match (&parent.capability_projection_id, delegated_capability_id, &child.capability_projection_id) {
            (Some(parent_capability), Some(recorded), Some(child_capability)) => {
                if str_eq(recorded, parent_capability.as_str()) && str_eq(
                    child_capability.as_str(),
                    parent_capability.as_str(),
                ) {
                    Ok(())
                } else {
                    Err(
                        RuntimeError::CapabilityWideningRejected {
                            detail: owned("child must record the parent's delegated capability id"),
                        },
                    )
                }
            },
            (Some(_), _, _) => Err(
                RuntimeError::CapabilityWideningRejected {
                    detail: owned("child must record the parent's delegated capability id"),
                },
            ),
            (None, None, None) => Ok(()),
            (None, _, _) => Err(
                RuntimeError::CapabilityWideningRejected {
                    detail: owned("parent holds no delegation capability, so the child cannot record one"),
                },
            ),
        }
    }
}

/// The refusal of the structural check: widening, with the reason it gives.
pub open spec fn structural_refusal(parent_capability: Option<String>, e: RuntimeError) -> bool {
    e matches RuntimeError::CapabilityWideningRejected { detail } && detail@ == if parent_capability is Some {
        "child must record the parent's delegated capability id"@
    } else {
        "parent holds no delegation capability, so the child cannot record one"@
    }
}

impl DelegationNarrowingCheck for StructuralDelegationCheck {
    open spec fn decides_by_spec(&self) -> bool {
        true
    }

    open spec fn accepts(&self, parent: AgentThread, child: NewAgentThread, recorded: Option<Seq<char>>) -> bool {
        structurally_narrow(parent.capability_projection_id, recorded, child.capability_projection_id)
    }

    open spec fn refuses_with(&self, parent: AgentThread, child: NewAgentThread, recorded: Option<Seq<char>>, e: RuntimeError) -> bool {
        structural_refusal(parent.capability_projection_id, e)
    }

    fn check(
        &self,
        parent: &AgentThread,
        child: &NewAgentThread,
        delegated_capability_id: Option<&str>,
    ) -> (r: Result<(), RuntimeError>)
        ensures
            r is Ok <==> structurally_narrow(
                parent.capability_projection_id,
                opt_view(delegated_capability_id),
                child.capability_projection_id,
            ),
            r matches Err(e) ==> (e matches RuntimeError::CapabilityWideningRejected { detail } && detail@ == if parent.capability_projection_id is Some {
                "child must record the parent's delegated capability id"@
            } else {
                "parent holds no delegation capability, so the child cannot record one"@
            }),
    {
        StructuralDelegationCheck::check_structure(parent, child, delegated_capability_id)
    }
}

/// A mailbox position: the last consumed sequence number.
#[derive(Debug, Clone, Copy, PartialEq, Eq, PartialOrd, Ord, Hash, Structural)]
pub struct MailboxCursor(u64);

impl View for MailboxCursor {
    type V = u64;

    closed spec fn view(&self) -> u64 {
        self.0
    }
}

/// What `str::parse::<u64>` gives: an optional leading `+`, then one or more decimal
/// digits whose value fits in a `u64`.
pub open spec fn parse_u64_text(s: Seq<char>) -> Option<int> {
    let body = if s.len() > 0 && s[0] == '+' {
        s.drop_first()
    } else {
        s
    };
    if body.len() > 0 && all_digits(body) && decimal_value(body) <= u64::MAX {
        Some(decimal_value(body))
    } else {
        None
    }
}

/// Parse a decimal `u64` as `str::parse::<u64>` would.
fn parse_u64(text: &str) -> (r: Option<u64>)
    ensures
        match r {
            Some(v) => parse_u64_text(text@) == Some(v as int),
            None => parse_u64_text(text@) is None,
        },
{
    let s = chars_of(text);
    let mut i: usize = 0;
    if s.len() > 0 && s[0] == '+' {
        i = 1;
    }
    let ghost body = s@.skip(i as int);
    proof {
        if s@.len() > 0 && s@[0] == '+' {
            assert(body =~= s@.drop_first());
        } else {
            assert(body =~= s@);
        }
    }
    let ghost spec_result = if body.len() > 0 && all_digits(body) && decimal_value(body) <= u64::MAX {
        Some(decimal_value(body))
    } else {
        None::<int>
    };
    assert(parse_u64_text(text@) == spec_result);
    if i == s.len() {
        return None;
    }
    let start = i;
    let cap: u128 = 18_446_744_073_709_551_616;
    let mut value: u128 = 0;
    while i < s.len()
        invariant
            start <= i <= s@.len(),
            s@ == text@,
            body == s@.skip(start as int),
            parse_u64_text(text@) == spec_result,
            spec_result == (if body.len() > 0 && all_digits(body) && decimal_value(body) <= u64::MAX {
                Some(decimal_value(body))
            } else {
                None::<int>
            }),
            cap == 18_446_744_073_709_551_616,
            value <= cap,
            value == (if decimal_value(s@.subrange(start as int, i as int)) < cap {
                decimal_value(s@.subrange(start as int, i as int))
            } else {
                cap as int
            }),
            all_digits(s@.subrange(start as int, i as int)),
        decreases s@.len() - i,
    {
        let c = s[i];
        if !('0' <= c && c <= '9') {
            proof {
                assert(body[i - start] == c);
                assert(!is_digit(c));
                assert(!all_digits(body));
            }
            return None;
        }
        let d: u128 = if c == '0' {
            0
        } else if c == '1' {
            1
        } else if c == '2' {
            2
        } else if c == '3' {
            3
        } else if c == '4' {
            4
        } else if c == '5' {
            5
        } else if c == '6' {
            6
        } else if c == '7' {
            7
        } else if c == '8' {
            8
        } else {
            9
        };
        assert(d == digit_value(c));
        proof {
            let prefix = s@.subrange(start as int, i + 1);
            assert(prefix.drop_last() =~= s@.subrange(start as int, i as int));
            assert(prefix.last() == c);
        }
        assert(value * 10 + d <= 184_467_440_737_095_516_169);
        let next = value * 10 + d;
        value = if next < cap {
            next
        } else {
            cap
        };
        i = i + 1;
        proof {
            assert forall|k: int| 0 <= k < s@.subrange(start as int, i as int).len() implies is_digit(
                #[trigger] s@.subrange(start as int, i as int)[k],
            ) by {
                if k < i - 1 - start {
                    assert(s@.subrange(start as int, i as int)[k] == s@.subrange(start as int, i - 1)[k]);
                }
            }
        }
    }
    proof {
        assert(s@.subrange(start as int, i as int) =~= body);
    }
    if value < cap {
        Some(value as u64)
    } else {
        None
    }
}

/// The decimal text of a number is a non-empty run of digits, starting with a digit, whose
/// value is the number.
pub proof fn lemma_decimal_text_value(n: nat)
    ensures
        decimal_text(n).len() > 0,
        all_digits(decimal_text(n)),
        decimal_value(decimal_text(n)) == n,
    decreases n,
{
    if n < 10 {
        let t = decimal_text(n);
        assert(t.drop_last() =~= Seq::<char>::empty());
        assert(((48 + n) as char) as int == 48 + n);
        assert(digit_value(t.last()) == n);
        assert(decimal_value(t) == decimal_value(t.drop_last()) * 10 + digit_value(t.last()));
        assert(is_digit(t[0]));
    } else {
        lemma_decimal_text_value(n / 10);
        let t = decimal_text(n);
        let d = decimal_digit((n % 10) as int);
        assert(t.drop_last() =~= decimal_text(n / 10));
        assert(t.last() == d);
        assert(((48 + (n % 10)) as char) as int == 48 + (n % 10));
        assert(digit_value(d) == n % 10);
        assert(decimal_value(t) == decimal_value(t.drop_last()) * 10 + digit_value(t.last()));
        assert(is_digit(d));
        assert forall|i: int| 0 <= i < t.len() implies is_digit(#[trigger] t[i]) by {
            if i < t.len() - 1 {
                assert(t[i] == decimal_text(n / 10)[i]);
            }
        }
    }
}

/// A cursor's decimal text parses back to the cursor: `parse` and [`MailboxCursor::to_text`]
/// round-trip every sequence number.
pub proof fn law_cursor_text_round_trips(n: u64)
    ensures
        parse_u64_text(decimal_text(n as nat)) == Some(n as int),
        decimal_text(n as nat).len() > 0,
{
    lemma_decimal_text_value(n as nat);
    assert(is_digit(decimal_text(n as nat)[0]));
}

impl MailboxCursor {
    /// The decimal text of the cursor, as it is stored.
    pub fn to_text(&self) -> (s: String)
        ensures
            s@ == decimal_text(self@ as nat),
    {
        u64_text(self.0)
    }

    /// The cursor at sequence number `seq`.
    pub fn new(seq: u64) -> (r: MailboxCursor)
        ensures
            r@ == seq,
    {
        MailboxCursor(seq)
    }

    /// The sequence number.
    pub fn get(self) -> (r: u64)
        ensures
            r == self@,
    {
        self.0
    }

    /// Parse a stored cursor: absent or empty is the initial cursor, anything else must
    /// be a decimal sequence number.
    pub fn parse(value: Option<&str>) -> (r: Result<MailboxCursor, RuntimeError>)
        ensures
            match value {
                None => r matches Ok(c) && c@ == 0,
                Some(raw) => if raw@.len() == 0 {
                    r matches Ok(c) && c@ == 0
                } else {
                    match parse_u64_text(raw@) {
                        Some(n) => r matches Ok(c) && c@ == n,
                        None => r matches Err(RuntimeError::InvalidArgument(msg)) && msg@
                            == "invalid mailbox cursor "@ + debug_quoted(raw@),
                    }
                },
            },
    {
        match value {
            None => Ok(MailboxCursor(0)),
            Some(raw) => {
                let chars = chars_of(raw);
                if chars.len() == 0 {
                    return Ok(MailboxCursor(0));
                }
                match parse_u64(raw) {
                    Some(n) => Ok(MailboxCursor(n)),
                    None => {
                        let mut msg = owned("invalid mailbox cursor ");
                        let q = quoted(raw);
                        msg.append(q.as_str());
                        Err(RuntimeError::InvalidArgument(msg))
                    },
                }
            },
        }
    }
}

/// The status of a handoff record.
#[derive(Debug, Clone, Copy, PartialEq, Eq, Hash, Structural)]
pub enum HandoffStatus {
    /// Started, not yet completed or rolled back.
    Pending,
    /// The target took over.
    Completed,
    /// The source took its work back.
    RolledBack,
}

/// The stored spelling of a handoff status.
pub open spec fn handoff_status_name(s: HandoffStatus) -> Seq<char> {
    match s {
        HandoffStatus::Pending => "PENDING"@,
        HandoffStatus::Completed => "COMPLETED"@,
        HandoffStatus::RolledBack => "ROLLED_BACK"@,
    }
}

impl HandoffStatus {
    /// The stored spelling.
    pub fn as_db_str(self) -> (s: &'static str)
        ensures
            s@ == handoff_status_name(self),
    {
        match self {
            HandoffStatus::Pending => "PENDING",
            HandoffStatus::Completed => "COMPLETED",
            HandoffStatus::RolledBack => "ROLLED_BACK",
        }
    }

    /// Parse the stored spelling.
    pub fn from_db_str(value: &str) -> (r: Result<HandoffStatus, RuntimeError>)
        ensures
            r matches Ok(s) ==> handoff_status_name(s) == value@,
            r is Err ==> forall|s: HandoffStatus| handoff_status_name(s) != value@,
            r matches Err(e) ==> e matches RuntimeError::UnknownState { entity, value: v } && entity@
                == "agent_handoff"@ && v@ == value@,
    {
        if str_eq(value, "PENDING") {
            Ok(HandoffStatus::Pending)
        } else if str_eq(value, "COMPLETED") {
            Ok(HandoffStatus::Completed)
        } else if str_eq(value, "ROLLED_BACK") {
            Ok(HandoffStatus::RolledBack)
        } else {
            proof {
                assert forall|s: HandoffStatus| handoff_status_name(s) != value@ by {
                    match s {
                        HandoffStatus::Pending => {},
                        HandoffStatus::Completed => {},
                        HandoffStatus::RolledBack => {},
                    }
                }
            }
            Err(RuntimeError::UnknownState { entity: owned("agent_handoff"), value: owned(value) })
        }
    }
}

/// One message in an agent thread's mailbox.
#[derive(Debug, Clone, PartialEq, Eq)]
pub struct MailboxItem {
    /// Owning thread.
    pub agent_thread_id: String,
    /// Owning tenant.
    pub tenant_id: String,
    /// Owning workspace.
    pub workspace_id: String,
    /// Sequence number within the mailbox.
    pub seq: i64,
    /// Idempotency key of the message.
    pub message_id: String,
    /// JSON payload text.
    pub payload: String,
    /// When it was delivered.
    pub delivered_at: Timestamp,
}

/// A message to deliver.
#[derive(Debug, Clone, PartialEq, Eq)]
pub struct NewMailboxItem {
    /// Idempotency key of the message.
    pub message_id: String,
    /// JSON payload text.
    pub payload: String,
}

impl NewMailboxItem {
    /// A message with an empty JSON object payload.
    pub fn new(message_id: &str) -> (r: NewMailboxItem)
        ensures
            r.message_id@ == message_id@,
            r.payload@ == "{}"@,
    {
        NewMailboxItem { message_id: owned(message_id), payload: owned("{}") }
    }

    /// The same message carrying `payload`.
    pub fn with_payload(self, payload: String) -> (r: NewMailboxItem)
        ensures
            r.message_id == self.message_id,
            r.payload == payload,
    {
        NewMailboxItem { payload, ..self }
    }
}

/// A stored handoff record.
#[derive(Debug, Clone, PartialEq, Eq)]
pub struct AgentHandoff {
    /// Handoff id.
    pub id: String,
    /// Owning tenant.
    pub tenant_id: String,
    /// Owning workspace.
    pub workspace_id: String,
    /// Thread handing off.
    pub from_agent_thread_id: String,
    /// Thread taking over.
    pub to_agent_thread_id: String,
    /// Run moving with the work.
    pub run_id: Option<String>,
    /// Generation of that run when the handoff started.
    pub run_generation: Option<u64>,
    /// Work node moving with the work.
    pub work_node_id: Option<String>,
    /// The source's mailbox cursor when the handoff started.
    pub mailbox_cursor: Option<String>,
    /// Evidence handed over.
    pub evidence_ids: Vec<String>,
    /// Children the run was waiting on.
    pub pending_child_thread_ids: Vec<String>,
    /// Conversation reference handed over.
    pub conversation_ref: Option<String>,
    /// Handoff status.
    pub status: HandoffStatus,
    /// When it completed.
    pub completed_at: Option<Timestamp>,
    /// When it was created.
    pub created_at: Timestamp,
    /// When it last changed.
    pub updated_at: Timestamp,
}

/// A handoff to start.
#[derive(Debug, Clone, PartialEq, Eq)]
pub struct NewHandoff {
    /// Thread taking over.
    pub to_agent_thread_id: String,
    /// Run moving with the work.
    pub run_id: Option<String>,
    /// Work node moving with the work.
    pub work_node_id: Option<String>,
    /// Evidence handed over.
    pub evidence_ids: Vec<String>,
    /// Conversation reference handed over.
    pub conversation_ref: Option<String>,
}

impl NewHandoff {
    /// Hand work to `to_agent_thread_id`, with nothing else attached.
    pub fn new(to_agent_thread_id: String) -> (r: NewHandoff)
        ensures
            r.to_agent_thread_id == to_agent_thread_id,
            r.run_id is None,
            r.work_node_id is None,
            r.evidence_ids@.len() == 0,
            r.conversation_ref is None,
    {
        NewHandoff {
            to_agent_thread_id,
            run_id: None,
            work_node_id: None,
            evidence_ids: Vec::new(),
            conversation_ref: None,
        }
    }

    /// The same handoff, moving `run_id` with it.
    pub fn with_run(self, run_id: String) -> (r: NewHandoff)
        ensures
            r == (NewHandoff { run_id: Some(run_id), ..self }),
    {
        NewHandoff { run_id: Some(run_id), ..self }
    }

    /// The same handoff, handing over `evidence_ids`.
    pub fn with_evidence(self, evidence_ids: Vec<String>) -> (r: NewHandoff)
        ensures
            r == (NewHandoff { evidence_ids, ..self }),
    {
        NewHandoff { evidence_ids, ..self }
    }

    /// The same handoff, handing over a conversation reference.
    pub fn with_conversation_ref(self, reference: &str) -> (r: NewHandoff)
        ensures
            r.to_agent_thread_id == self.to_agent_thread_id,
            r.run_id == self.run_id,
            r.work_node_id == self.work_node_id,
            r.evidence_ids == self.evidence_ids,
            r.conversation_ref matches Some(c) && c@ == reference@,
    {
        NewHandoff { conversation_ref: Some(owned(reference)), ..self }
    }
}

/// A completed handoff, with both threads as they are afterwards.
#[derive(Debug, Clone, PartialEq, Eq)]
pub struct CompletedHandoff {
    /// The handoff record.
    pub handoff: AgentHandoff,
    /// The source thread.
    pub source: AgentThread,
    /// The target thread.
    pub target: AgentThread,
    /// The run that moved, if any.
    pub run_id: Option<String>,
    /// Whether the handoff had already completed.
    pub duplicate: bool,
}

/// The merge record of a worker's join.
#[derive(Debug, Clone, PartialEq, Eq)]
pub struct AgentJoin {
    /// The worker that joined.
    pub child_agent_thread_id: String,
    /// Owning tenant.
    pub tenant_id: String,
    /// Owning workspace.
    pub workspace_id: String,
    /// The parent joined into.
    pub parent_agent_thread_id: String,
    /// The delegation edge closed.
    pub edge_id: String,
    /// The worker's final status.
    pub child_status: String,
    /// Evidence merged.
    pub evidence_ids: Vec<String>,
    /// Artifacts merged.
    pub artifact_ids: Vec<String>,
    /// JSON outcome text.
    pub outcome: String,
    /// When it joined.
    pub joined_at: Timestamp,
}

/// A worker's request to join its parent.
#[derive(Debug, Clone, PartialEq, Eq)]
pub struct JoinRequest {
    /// The worker joining.
    pub child_agent_thread_id: String,
    /// The worker's generation.
    pub child_generation: u64,
    /// The worker's final status.
    pub child_status: String,
    /// Evidence to merge.
    pub evidence_ids: Vec<String>,
    /// Artifacts to merge.
    pub artifact_ids: Vec<String>,
    /// JSON outcome text.
    pub outcome: String,
    /// The parent's run waiting on this worker.
    pub parent_run_id: Option<String>,
    /// That run's generation.
    pub parent_run_generation: Option<u64>,
}

impl JoinRequest {
    /// A successful join of `child_agent_thread_id` with no lineage.
    pub fn new(child_agent_thread_id: String, child_generation: u64) -> (r: JoinRequest)
        ensures
            r.child_agent_thread_id == child_agent_thread_id,
            r.child_generation == child_generation,
            r.child_status@ == "SUCCEEDED"@,
            r.evidence_ids@.len() == 0,
            r.artifact_ids@.len() == 0,
            r.outcome@ == "{}"@,
            r.parent_run_id is None,
            r.parent_run_generation is None,
    {
        JoinRequest {
            child_agent_thread_id,
            child_generation,
            child_status: owned("SUCCEEDED"),
            evidence_ids: Vec::new(),
            artifact_ids: Vec::new(),
            outcome: owned("{}"),
            parent_run_id: None,
            parent_run_generation: None,
        }
    }

    /// The same join, merging evidence, artifacts and an outcome.
    pub fn with_lineage(self, evidence_ids: Vec<String>, artifact_ids: Vec<String>, outcome: String) -> (r: JoinRequest)
        ensures
            r == (JoinRequest { evidence_ids, artifact_ids, outcome, ..self }),
    {
        JoinRequest { evidence_ids, artifact_ids, outcome, ..self }
    }

    /// The same join, releasing the parent's run at `generation`.
    pub fn with_parent_run(self, run_id: String, generation: u64) -> (r: JoinRequest)
        ensures
            r == (JoinRequest { parent_run_id: Some(run_id), parent_run_generation: Some(generation), ..self }),
    {
        JoinRequest { parent_run_id: Some(run_id), parent_run_generation: Some(generation), ..self }
    }
}

/// A join that was made.
#[derive(Debug, Clone, PartialEq, Eq)]
pub struct Joined {
    /// The worker, now joined.
    pub child: AgentThread,
    /// The closed delegation edge.
    pub edge: DelegationEdge,
    /// The merge record.
    pub merge: AgentJoin,
    /// Whether the parent's run was released.
    pub parent_run_resumed: bool,
    /// Whether the worker had already joined.
    pub duplicate: bool,
}

/// Why a transition is refused, if it is: the lifecycle table first, then the kind's
/// policy.
pub open spec fn transition_refused(kind: AgentKind, from: AgentThreadStatus, to: AgentThreadStatus) -> bool {
    !allowed(from, to) || policy_refusal(kind, from, to) is Some
}

/// Whether `e` is the refusal of moving a thread of `kind` from `from` to `to`: an edge the
/// state table lacks is an illegal transition, else the lifecycle rule that forbids it.
pub open spec fn transition_refusal(kind: AgentKind, from: AgentThreadStatus, to: AgentThreadStatus, e: RuntimeError) -> bool {
    if !allowed(from, to) {
        e matches RuntimeError::IllegalTransition { entity, from: f, to: t } && entity@ == "agent_thread"@ && f@
            == status_name(from) && t@ == status_name(to)
    } else {
        e matches RuntimeError::LifecyclePolicy { from: f, to: t, rule } && f@ == status_name(from) && t@ == status_name(
            to,
        ) && Some(rule@) == policy_refusal(kind, from, to)
    }
}

/// Check `from → to` against the lifecycle table and the kind's policy.
pub fn check_transition(kind: AgentKind, from: AgentThreadStatus, to: AgentThreadStatus) -> (r: Result<
    (),
    RuntimeError,
>)
    ensures
        r is Ok <==> !transition_refused(kind, from, to),
        r matches Err(e) ==> transition_refusal(kind, from, to, e),
        !allowed(from, to) ==> (r matches Err(RuntimeError::IllegalTransition { entity, from: f, to: t })
            && entity@ == "agent_thread"@ && f@ == status_name(from) && t@ == status_name(to)),
        allowed(from, to) && policy_refusal(kind, from, to) is Some ==> r matches Err(
            RuntimeError::LifecyclePolicy { .. },
        ),
{
    if !from.can_transition_to(to) {
        return Err(
            RuntimeError::IllegalTransition {
                entity: owned("agent_thread"),
                from: owned(from.as_db_str()),
                to: owned(to.as_db_str()),
            },
        );
    }
    check_lifecycle_policy(kind, from, to)
}

/// Whether a transition may be applied to a locked thread by an actor at `generation`,
/// and the `agent.*` event it records. Provisioning, joining and joined are applied by
/// their owning operations, never here.
pub fn transition_decision(current: &AgentThread, generation: u64, to: AgentThreadStatus) -> (r: Result<
    &'static str,
    RuntimeError,
>)
    ensures
        (to == AgentThreadStatus::Joining || to == AgentThreadStatus::Joined || to == AgentThreadStatus::Provisioned)
            ==> (r matches Err(RuntimeError::InvalidArgument(msg)) && msg@ == status_name(to)
            + " is applied by its owning operation, not transition"@),
        !(to == AgentThreadStatus::Joining || to == AgentThreadStatus::Joined || to == AgentThreadStatus::Provisioned)
            && generation >= current.generation && transition_refused(current.agent_kind, current.status, to) ==> (r matches Err(
            e,
        ) && transition_refusal(current.agent_kind, current.status, to, e)),
        r matches Ok(event) ==> !(to == AgentThreadStatus::Joining || to == AgentThreadStatus::Joined || to
            == AgentThreadStatus::Provisioned) && generation >= current.generation && !transition_refused(
            current.agent_kind,
            current.status,
            to,
        ) && event_name_of(to) == Some(event@),
        !(to == AgentThreadStatus::Joining || to == AgentThreadStatus::Joined || to == AgentThreadStatus::Provisioned)
            ==> (r is Ok <==> (generation >= current.generation && !transition_refused(
            current.agent_kind,
            current.status,
            to,
        ))),
        !(to == AgentThreadStatus::Joining || to == AgentThreadStatus::Joined || to == AgentThreadStatus::Provisioned)
            && generation < current.generation ==> r == Err::<&'static str, RuntimeError>(
            RuntimeError::FencedStaleGeneration { current: current.generation, received: generation },
        ),
{
    if to == AgentThreadStatus::Joining || to == AgentThreadStatus::Joined || to == AgentThreadStatus::Provisioned {
        let mut msg = owned(to.as_db_str());
        msg.append(" is applied by its owning operation, not transition");
        return Err(RuntimeError::InvalidArgument(msg));
    }
    match fence(current.generation, generation) {
        Ok(()) => {},
        Err(e) => return Err(e),
    }
    match check_transition(current.agent_kind, current.status, to) {
        Ok(()) => {},
        Err(e) => return Err(e),
    }
    match agent_event_name(to) {
        Some(event) => Ok(event),
        None => {
            let mut msg = owned("no agent.* event is named for ");
            msg.append(to.as_db_str());
            Err(RuntimeError::InvalidArgument(msg))
        },
    }
}

/// What a delegation creates: the capability it records, the child to provision (with
/// the parent as its parent) and the work node the edge carries.
#[derive(Debug, Clone, PartialEq, Eq)]
pub struct DelegationPlan {
    /// The capability the edge records.
    pub resolved_capability: Option<String>,
    /// The child thread to provision.
    pub child: NewAgentThread,
    /// The work node the edge carries.
    pub work_node_id: Option<String>,
}

/// The capability a delegation records: the request's, or else the parent's projection.
pub open spec fn resolved_capability(parent: AgentThread, request: NewDelegation) -> Option<String> {
    match request.delegation_capability_id {
        Some(c) => Some(c),
        None => parent.capability_projection_id,
    }
}

/// The view of an optional string.
pub open spec fn opt_string_view(o: Option<String>) -> Option<Seq<char>> {
    match o {
        Some(s) => Some(s@),
        None => None,
    }
}

/// Plan a delegation by a locked parent, checked by `check`. A child in another workspace
/// is refused; otherwise `check` is asked about the parent, the requested child and the
/// capability to record (the request's, or the parent's projection), and its refusal is
/// passed on; on acceptance the plan records that capability, the child under the parent
/// and the work node.
pub fn plan_delegation<C: DelegationNarrowingCheck>(check: &C, parent: &AgentThread, request: &NewDelegation) -> (r:
    Result<DelegationPlan, RuntimeError>)
    ensures
        parent.workspace_id@ != request.child.workspace_id@ ==> (r matches Err(RuntimeError::InvalidArgument(msg))
            && msg@ == "child workspace "@ + request.child.workspace_id@ + " differs from parent workspace "@
            + parent.workspace_id@),
        parent.workspace_id@ == request.child.workspace_id@ && check.decides_by_spec() ==> (r is Ok <==> check.accepts(
            *parent,
            request.child,
            opt_string_view(resolved_capability(*parent, *request)),
        )),
        parent.workspace_id@ == request.child.workspace_id@ && check.decides_by_spec() ==> (r matches Err(e) ==> check.refuses_with(
            *parent,
            request.child,
            opt_string_view(resolved_capability(*parent, *request)),
            e,
        )),
        r matches Ok(p) ==> parent.workspace_id@ == request.child.workspace_id@ && p.resolved_capability
            == resolved_capability(*parent, *request) && p.child == (NewAgentThread {
            parent_id: Some(parent.id),
            ..request.child
        }) && p.work_node_id == (match request.work_node_id {
            Some(w) => Some(w),
            None => request.child.work_node_id,
        }),
{
    if !str_eq(parent.workspace_id.as_str(), request.child.workspace_id.as_str()) {
        let mut msg = owned("child workspace ");
        msg.append(request.child.workspace_id.as_str());
        msg.append(" differs from parent workspace ");
        msg.append(parent.workspace_id.as_str());
        return Err(RuntimeError::InvalidArgument(msg));
    }
    let resolved = match &request.delegation_capability_id {
        Some(c) => Some(c.clone()),
        None => match &parent.capability_projection_id {
            Some(c) => Some(c.clone()),
            None => None,
        },
    };
    let recorded: Option<&str> = match &resolved {
        Some(c) => Some(c.as_str()),
        None => None,
    };
    match check.check(parent, &request.child, recorded) {
        Ok(()) => {},
        Err(e) => return Err(e),
    }
    let child = NewAgentThread {
        workspace_id: request.child.workspace_id.clone(),
        agent_kind: request.child.agent_kind,
        definition_id: clone_opt(&request.child.definition_id),
        parent_id: Some(parent.id.clone()),
        work_node_id: clone_opt(&request.child.work_node_id),
        capability_projection_id: clone_opt(&request.child.capability_projection_id),
        execution_target_id: clone_opt(&request.child.execution_target_id),
        budget_id: clone_opt(&request.child.budget_id),
    };
    let work_node_id = match &request.work_node_id {
        Some(w) => Some(w.clone()),
        None => clone_opt(&request.child.work_node_id),
    };
    Ok(DelegationPlan { resolved_capability: resolved, child, work_node_id })
}

/// A copy of an optional string.
fn clone_opt(o: &Option<String>) -> (r: Option<String>)
    ensures
        r == *o,
{
    match o {
        Some(s) => Some(s.clone()),
        None => None,
    }
}

/// Whether the structural check accepts a delegation: the capability recorded is the
/// request's or the parent's projection, and it must equal the parent's projection and
/// the child's, or all three are absent.
pub proof fn law_structural_delegation_never_widens(
    parent_capability: Option<String>,
    recorded: Option<Seq<char>>,
    child_capability: Option<String>,
)
    requires
        structurally_narrow(parent_capability, recorded, child_capability),
    ensures
        parent_capability is None ==> recorded is None && child_capability is None,
        parent_capability matches Some(p) ==> (recorded == Some(p@) && (child_capability matches Some(c) && c@ == p@)),
{
}

/// Whether a message may be delivered to a locked thread: never to a terminated one.
pub fn delivery_check(thread: &AgentThread) -> (r: Result<(), RuntimeError>)
    ensures
        r is Ok <==> thread.status != AgentThreadStatus::Terminated,
        r matches Err(e) ==> (e matches RuntimeError::IllegalTransition { entity, from, to } && entity@
            == "agent_thread"@ && from@ == status_name(thread.status) && to@ == "mailbox delivery"@),
{
    if thread.status.is_terminal() {
        return Err(
            RuntimeError::IllegalTransition {
                entity: owned("agent_thread"),
                from: owned(thread.status.as_db_str()),
                to: owned("mailbox delivery"),
            },
        );
    }
    Ok(())
}

/// Whether `r` is what the first step of advancing a mailbox cursor answers: a stale
/// generation is fenced, a stored cursor that does not parse is refused, and otherwise
/// whether `cursor` moves past the stored one.
pub open spec fn cursor_precheck_outcome(thread: AgentThread, generation: u64, cursor: MailboxCursor, r: Result<bool, RuntimeError>) -> bool {
    if generation < thread.generation {
        r == Err::<bool, RuntimeError>(RuntimeError::FencedStaleGeneration { current: thread.generation, received: generation })
    } else if stored_cursor(thread.mailbox_cursor) is None {
        r matches Err(RuntimeError::InvalidArgument(msg)) && msg@ == "invalid mailbox cursor "@ + debug_quoted(
            thread.mailbox_cursor->0@,
        )
    } else {
        r == Ok::<bool, RuntimeError>(cursor@ > stored_cursor(thread.mailbox_cursor)->0)
    }
}

/// Whether a cursor advance has anything to do, before any lock: a stale actor is fenced,
/// and a cursor at or behind the stored one changes nothing (`false`).
pub fn cursor_precheck(thread: &AgentThread, generation: u64, cursor: MailboxCursor) -> (r: Result<bool, RuntimeError>)
    ensures
        cursor_precheck_outcome(*thread, generation, cursor, r),
        generation < thread.generation ==> r == Err::<bool, RuntimeError>(
            RuntimeError::FencedStaleGeneration { current: thread.generation, received: generation },
        ),
        r matches Ok(advance) ==> generation >= thread.generation && match thread.mailbox_cursor {
            None => advance == (cursor@ > 0),
            Some(raw) => if raw@.len() == 0 {
                advance == (cursor@ > 0)
            } else {
                parse_u64_text(raw@) matches Some(n) && advance == (cursor@ > n)
            },
        },
{
    match fence(thread.generation, generation) {
        Ok(()) => {},
        Err(e) => return Err(e),
    }
    let stored: Option<&str> = match &thread.mailbox_cursor {
        Some(s) => Some(s.as_str()),
        None => None,
    };
    let current = match MailboxCursor::parse(stored) {
        Ok(c) => c,
        Err(e) => return Err(e),
    };
    Ok(cursor.get() > current.get())
}

/// Whether `r` is what committing a mailbox cursor answers under the row lock: a stale
/// generation is fenced, a stored cursor that does not parse is refused, a cursor that
/// does not move forward lost a race, and a cursor past the last delivered item is
/// refused; otherwise the stored cursor it replaces.
pub open spec fn cursor_commit_outcome(
    thread: AgentThread,
    generation: u64,
    cursor: MailboxCursor,
    delivered: i64,
    r: Result<MailboxCursor, RuntimeError>,
) -> bool {
    if generation < thread.generation {
        r == Err::<MailboxCursor, RuntimeError>(
            RuntimeError::FencedStaleGeneration { current: thread.generation, received: generation },
        )
    } else if stored_cursor(thread.mailbox_cursor) is None {
        r matches Err(RuntimeError::InvalidArgument(msg)) && msg@ == "invalid mailbox cursor "@ + debug_quoted(
            thread.mailbox_cursor->0@,
        )
    } else if cursor@ <= stored_cursor(thread.mailbox_cursor)->0 {
        r matches Err(RuntimeError::StateConflict { entity, id }) && entity@ == "agent_thread"@ && id@ == thread.id@
    } else if (cursor@ as i64) > delivered {
        r matches Err(RuntimeError::InvalidArgument(msg)) && msg@ == "cursor "@ + decimal_text(cursor@ as nat)
            + " is past the last delivered seq "@ + int_text(delivered as int)
    } else {
        r matches Ok(previous) && previous@ == stored_cursor(thread.mailbox_cursor)->0
    }
}

/// Whether a cursor advance may commit on the locked thread, given the last delivered
/// sequence number; on success the previous cursor is returned for the event.
pub fn cursor_commit_check(thread: &AgentThread, generation: u64, cursor: MailboxCursor, delivered: i64) -> (r: Result<
    MailboxCursor,
    RuntimeError,
>)
    ensures
        cursor_commit_outcome(*thread, generation, cursor, delivered, r),
        generation < thread.generation ==> r == Err::<MailboxCursor, RuntimeError>(
            RuntimeError::FencedStaleGeneration { current: thread.generation, received: generation },
        ),
        r matches Ok(previous) ==> generation >= thread.generation && cursor@ > previous@ && (cursor@ as i64)
            <= delivered && match thread.mailbox_cursor {
            None => previous@ == 0,
            Some(raw) => if raw@.len() == 0 {
                previous@ == 0
            } else {
                parse_u64_text(raw@) == Some(previous@ as int)
            },
        },
        r matches Err(RuntimeError::InvalidArgument(msg)) ==> ((generation >= thread.generation && (
        thread.mailbox_cursor matches Some(raw) ==> raw@.len() == 0 || parse_u64_text(raw@) is Some)) ==> msg@
            == "cursor "@ + decimal_text(cursor@ as nat) + " is past the last delivered seq "@ + int_text(
            delivered as int,
        )),
{
    match fence(thread.generation, generation) {
        Ok(()) => {},
        Err(e) => return Err(e),
    }
    let stored: Option<&str> = match &thread.mailbox_cursor {
        Some(s) => Some(s.as_str()),
        None => None,
    };
    let current = match MailboxCursor::parse(stored) {
        Ok(c) => c,
        Err(e) => return Err(e),
    };
    if cursor.get() <= current.get() {
        return Err(RuntimeError::StateConflict { entity: owned("agent_thread"), id: thread.id.clone() });
    }
    if cursor.get() as i64 > delivered {
        let mut msg = owned("cursor ");
        let c = u64_text(cursor.get());
        msg.append(c.as_str());
        msg.append(" is past the last delivered seq ");
        let d = i64_text(delivered);
        msg.append(d.as_str());
        return Err(RuntimeError::InvalidArgument(msg));
    }
    Ok(current)
}

/// Whether `r` is what starting a handoff from `source` to `target` answers, checked in
/// order: the fence, the source's move to `HANDING_OFF`, a target other than the source,
/// in the same workspace, that has consumed nothing and is provisioned or active, and a
/// run the source owns.
pub open spec fn handoff_start_outcome(
    source: AgentThread,
    generation: u64,
    target: AgentThread,
    run_owner: Option<&str>,
    r: Result<(), RuntimeError>,
) -> bool {
    if generation < source.generation {
        r == Err::<(), RuntimeError>(RuntimeError::FencedStaleGeneration { current: source.generation, received: generation })
    } else if transition_refused(source.agent_kind, source.status, AgentThreadStatus::HandingOff) {
        r matches Err(e) && transition_refusal(source.agent_kind, source.status, AgentThreadStatus::HandingOff, e)
    } else if target.id@ == source.id@ {
        r matches Err(RuntimeError::InvalidArgument(msg)) && msg@ == "a thread cannot hand its work to itself"@
    } else if target.workspace_id@ != source.workspace_id@ {
        r matches Err(RuntimeError::InvalidArgument(msg)) && msg@ == "handoff target is in another workspace"@
    } else if target.mailbox_cursor is Some {
        r matches Err(RuntimeError::InvalidArgument(msg)) && msg@ == "handoff target has already consumed mailbox items"@
    } else if !(target.status == AgentThreadStatus::Provisioned || target.status == AgentThreadStatus::Active) {
        r matches Err(RuntimeError::IllegalTransition { entity, from, to }) && entity@ == "agent_thread"@ && from@
            == status_name(target.status) && to@ == "handoff target"@
    } else if run_owner matches Some(o) && o@ != source.id@ {
        r matches Err(RuntimeError::InvalidArgument(msg)) && msg@ == "handoff run is not owned by the source thread"@
    } else {
        r is Ok
    }
}

/// Whether a locked source may hand its work to a locked target: the actor is current,
/// the source may enter `HANDING_OFF`, the target is another thread of the same
/// workspace that has consumed nothing and is provisioned or active, and the run moved
/// (if any) is owned by the source.
pub fn handoff_start_check(
    source: &AgentThread,
    generation: u64,
    target: &AgentThread,
    run_owner: Option<&str>,
) -> (r: Result<(), RuntimeError>)
    ensures
        handoff_start_outcome(*source, generation, *target, run_owner, r),
        r is Ok <==> (generation >= source.generation && !transition_refused(
            source.agent_kind,
            source.status,
            AgentThreadStatus::HandingOff,
        ) && target.id@ != source.id@ && target.workspace_id@ == source.workspace_id@ && target.mailbox_cursor is None
            && (target.status == AgentThreadStatus::Provisioned || target.status == AgentThreadStatus::Active) && (
        run_owner matches Some(o) ==> o@ == source.id@)),
        generation < source.generation ==> r == Err::<(), RuntimeError>(
            RuntimeError::FencedStaleGeneration { current: source.generation, received: generation },
        ),
{
    match fence(source.generation, generation) {
        Ok(()) => {},
        Err(e) => return Err(e),
    }
    match check_transition(source.agent_kind, source.status, AgentThreadStatus::HandingOff) {
        Ok(()) => {},
        Err(e) => return Err(e),
    }
    if str_eq(target.id.as_str(), source.id.as_str()) {
        return Err(RuntimeError::InvalidArgument(owned("a thread cannot hand its work to itself")));
    }
    if !str_eq(target.workspace_id.as_str(), source.workspace_id.as_str()) {
        return Err(RuntimeError::InvalidArgument(owned("handoff target is in another workspace")));
    }
    if target.mailbox_cursor.is_some() {
        return Err(RuntimeError::InvalidArgument(owned("handoff target has already consumed mailbox items")));
    }
    if !(target.status == AgentThreadStatus::Provisioned || target.status == AgentThreadStatus::Active) {
        return Err(
            RuntimeError::IllegalTransition {
                entity: owned("agent_thread"),
                from: owned(target.status.as_db_str()),
                to: owned("handoff target"),
            },
        );
    }
    if let Some(owner) = run_owner {
        if !str_eq(owner, source.id.as_str()) {
            return Err(RuntimeError::InvalidArgument(owned("handoff run is not owned by the source thread")));
        }
    }
    Ok(())
}

/// How a handoff completion starts from the record read without a lock: a completed
/// handoff is answered as a duplicate (`true`), a rolled-back one cannot complete.
pub fn handoff_entry(handoff_id: &str, status: HandoffStatus) -> (r: Result<bool, RuntimeError>)
    ensures
        status == HandoffStatus::Completed ==> r == Ok::<bool, RuntimeError>(true),
        status == HandoffStatus::Pending ==> r == Ok::<bool, RuntimeError>(false),
        status == HandoffStatus::RolledBack ==> (r matches Err(RuntimeError::HandoffNotRecoverable { handoff_id: h, status: s })
            && h@ == handoff_id@ && s@ == "ROLLED_BACK"@),
{
    match status {
        HandoffStatus::Completed => Ok(true),
        HandoffStatus::RolledBack => Err(
            RuntimeError::HandoffNotRecoverable { handoff_id: owned(handoff_id), status: owned(status.as_db_str()) },
        ),
        HandoffStatus::Pending => Ok(false),
    }
}

/// What completing a handoff writes.
#[derive(Debug, Clone, Copy, PartialEq, Eq, Structural)]
pub struct CompletionPlan {
    /// Whether the provisioned target is activated first.
    pub activate_target: bool,
    /// The source's mailbox position the target takes over from.
    pub cursor: MailboxCursor,
    /// Whether the source's unread mailbox items are copied to the target.
    pub copy_mailbox: bool,
    /// Whether the run moves to the target.
    pub reassign_run: bool,
    /// Whether the work node moves to the target.
    pub reassign_work_node: bool,
}

/// The cursor a stored mailbox position names: absent or empty is the start, anything
/// else must be a decimal sequence number (`None` when it is not).
pub open spec fn stored_cursor(c: Option<String>) -> Option<int> {
    match c {
        None => Some(0),
        Some(raw) => if raw@.len() == 0 {
            Some(0)
        } else {
            parse_u64_text(raw@)
        },
    }
}

/// Whether `r` is what completing `handoff` answers: a settled handoff or a source that is
/// no longer handing off is not recoverable, a target that is neither provisioned nor
/// active cannot take the work, the stored cursor must parse, and a moved run must still
/// be the source's at a generation the handoff has not fallen behind; otherwise the plan
/// activates a provisioned target, copies the mailbox past the cursor and reassigns the
/// run and work node the handoff names.
pub open spec fn completion_outcome(
    handoff: AgentHandoff,
    source: AgentThread,
    target: AgentThread,
    run: Option<(u64, &str)>,
    r: Result<CompletionPlan, RuntimeError>,
) -> bool {
    if handoff.status != HandoffStatus::Pending {
        r matches Err(RuntimeError::HandoffNotRecoverable { handoff_id: h, status: st }) && h@ == handoff.id@ && st@
            == handoff_status_name(handoff.status)
    } else if source.status != AgentThreadStatus::HandingOff {
        r matches Err(RuntimeError::HandoffNotRecoverable { handoff_id: h, status: st }) && h@ == handoff.id@ && st@
            == "source "@ + status_name(source.status)
    } else if !(target.status == AgentThreadStatus::Provisioned || target.status == AgentThreadStatus::Active) {
        r matches Err(RuntimeError::IllegalTransition { entity, from, to }) && entity@ == "agent_thread"@ && from@
            == status_name(target.status) && to@ == "handoff target"@
    } else if stored_cursor(handoff.mailbox_cursor) is None {
        r matches Err(RuntimeError::InvalidArgument(msg)) && msg@ == "invalid mailbox cursor "@ + debug_quoted(
            handoff.mailbox_cursor->0@,
        )
    } else if handoff.run_id is Some && run is Some && (handoff.run_generation matches Some(recorded) && recorded
        < (run->0).0) {
        r == Err::<CompletionPlan, RuntimeError>(
            RuntimeError::FencedStaleGeneration { current: (run->0).0, received: handoff.run_generation->0 },
        )
    } else if handoff.run_id is Some && run is Some && (run->0).1@ != source.id@ {
        r matches Err(RuntimeError::InvalidArgument(msg)) && msg@ == "handoff run is no longer owned by the source thread"@
    } else {
        r matches Ok(p) && p.activate_target == (target.status == AgentThreadStatus::Provisioned) && p.cursor@
            == stored_cursor(handoff.mailbox_cursor)->0 && p.copy_mailbox == (p.cursor@ > 0) && p.reassign_run
            == handoff.run_id is Some && p.reassign_work_node == handoff.work_node_id is Some
    }
}

/// Whether a pending handoff may complete on its locked rows, and what it writes. The
/// source must still be handing off; a provisioned target is activated, any other target
/// must be active; a moved run must not have advanced past the recorded generation and
/// must still be owned by the source.
pub fn handoff_completion(
    handoff: &AgentHandoff,
    source: &AgentThread,
    target: &AgentThread,
    run: Option<(u64, &str)>,
) -> (r: Result<CompletionPlan, RuntimeError>)
    requires
        handoff.run_id is Some ==> run is Some,
    ensures
        completion_outcome(*handoff, *source, *target, run, r),
        r matches Ok(p) ==> handoff.status == HandoffStatus::Pending && source.status == AgentThreadStatus::HandingOff
            && (target.status == AgentThreadStatus::Provisioned || target.status == AgentThreadStatus::Active)
            && p.activate_target == (target.status == AgentThreadStatus::Provisioned) && p.copy_mailbox == (p.cursor@
            > 0) && p.reassign_run == handoff.run_id is Some && p.reassign_work_node == handoff.work_node_id is Some && (
        handoff.run_id is Some ==> (run matches Some((g, owner)) && owner@ == source.id@ && (
        handoff.run_generation matches Some(recorded) ==> recorded >= g))),
{
    if handoff.status != HandoffStatus::Pending {
        return Err(
            RuntimeError::HandoffNotRecoverable {
                handoff_id: handoff.id.clone(),
                status: owned(handoff.status.as_db_str()),
            },
        );
    }
    if source.status != AgentThreadStatus::HandingOff {
        let mut status = owned("source ");
        status.append(source.status.as_db_str());
        return Err(RuntimeError::HandoffNotRecoverable { handoff_id: handoff.id.clone(), status });
    }
    let activate_target = target.status == AgentThreadStatus::Provisioned;
    if !activate_target && target.status != AgentThreadStatus::Active {
        return Err(
            RuntimeError::IllegalTransition {
                entity: owned("agent_thread"),
                from: owned(target.status.as_db_str()),
                to: owned("handoff target"),
            },
        );
    }
    let stored: Option<&str> = match &handoff.mailbox_cursor {
        Some(s) => Some(s.as_str()),
        None => None,
    };
    let cursor = match MailboxCursor::parse(stored) {
        Ok(c) => c,
        Err(e) => return Err(e),
    };
    let reassign_run = handoff.run_id.is_some();
    if reassign_run {
        let (current_generation, owner) = match run {
            Some(r) => r,
            None => {
                return Err(RuntimeError::InvalidArgument(owned("handoff run was not read")));
            },
        };
        if let Some(recorded) = handoff.run_generation {
            match fence(current_generation, recorded) {
                Ok(()) => {},
                Err(e) => return Err(e),
            }
        }
        if !str_eq(owner, source.id.as_str()) {
            return Err(RuntimeError::InvalidArgument(owned("handoff run is no longer owned by the source thread")));
        }
    }
    Ok(
        CompletionPlan {
            activate_target,
            cursor,
            copy_mailbox: cursor.get() > 0,
            reassign_run,
            reassign_work_node: handoff.work_node_id.is_some(),
        },
    )
}

/// Whether a pending handoff may be rolled back: the source takes its work back only
/// while it is still handing off.
pub fn handoff_rollback_check(handoff: &AgentHandoff, source: &AgentThread) -> (r: Result<(), RuntimeError>)
    ensures
        r is Ok <==> (handoff.status == HandoffStatus::Pending && source.status == AgentThreadStatus::HandingOff),
        handoff.status != HandoffStatus::Pending ==> (r matches Err(RuntimeError::HandoffNotRecoverable { handoff_id: h, status: st })
            && h@ == handoff.id@ && st@ == handoff_status_name(handoff.status)),
        handoff.status == HandoffStatus::Pending && source.status != AgentThreadStatus::HandingOff ==> (r matches Err(
            RuntimeError::HandoffNotRecoverable { handoff_id: h, status: st },
        ) && h@ == handoff.id@ && st@ == "source "@ + status_name(source.status)),
{
    if handoff.status != HandoffStatus::Pending {
        return Err(
            RuntimeError::HandoffNotRecoverable {
                handoff_id: handoff.id.clone(),
                status: owned(handoff.status.as_db_str()),
            },
        );
    }
    if source.status != AgentThreadStatus::HandingOff {
        let mut status = owned("source ");
        status.append(source.status.as_db_str());
        return Err(RuntimeError::HandoffNotRecoverable { handoff_id: handoff.id.clone(), status });
    }
    Ok(())
}

/// A completed handoff can never roll back, and a rolled-back one never completes.
pub proof fn law_handoff_settles_once(status: HandoffStatus)
    ensures
        status != HandoffStatus::Pending ==> status == HandoffStatus::Completed || status == HandoffStatus::RolledBack,
{
}

/// How a join starts from the worker read without a lock: a stale actor is fenced, a
/// teammate never joins, and a worker that already joined is answered as a duplicate
/// (`true`).
pub fn join_precheck(child: &AgentThread, generation: u64) -> (r: Result<bool, RuntimeError>)
    ensures
        generation < child.generation ==> r == Err::<bool, RuntimeError>(
            RuntimeError::FencedStaleGeneration { current: child.generation, received: generation },
        ),
        generation >= child.generation && child.agent_kind == AgentKind::Teammate ==> (r matches Err(
            RuntimeError::LifecyclePolicy { from, to, rule },
        ) && from@ == status_name(child.status) && to@ == "JOINED"@ && rule@ == "teammate_cannot_join"@),
        generation >= child.generation && child.agent_kind == AgentKind::Worker ==> r == Ok::<bool, RuntimeError>(
            child.status == AgentThreadStatus::Joined,
        ),
{
    match fence(child.generation, generation) {
        Ok(()) => {},
        Err(e) => return Err(e),
    }
    if child.agent_kind == AgentKind::Teammate {
        return Err(
            RuntimeError::LifecyclePolicy {
                from: owned(child.status.as_db_str()),
                to: owned(AgentThreadStatus::Joined.as_db_str()),
                rule: owned(TEAMMATE_CANNOT_JOIN),
            },
        );
    }
    Ok(child.status == AgentThreadStatus::Joined)
}

/// Whether `r` is what joining `child` answers, checked in order: the fence, a teammate
/// never joins, a joined worker or edge is a conflict, a worker needs a parent, and the
/// worker must be able to move through `JOINING` to `JOINED`; otherwise its parent.
pub open spec fn join_outcome(child: AgentThread, generation: u64, edge_joined: bool, r: Result<String, RuntimeError>) -> bool {
    if generation < child.generation {
        r == Err::<String, RuntimeError>(RuntimeError::FencedStaleGeneration { current: child.generation, received: generation })
    } else if child.agent_kind == AgentKind::Teammate {
        r matches Err(RuntimeError::LifecyclePolicy { from, to, rule }) && from@ == status_name(child.status) && to@
            == "JOINED"@ && rule@ == "teammate_cannot_join"@
    } else if child.status == AgentThreadStatus::Joined {
        r matches Err(RuntimeError::StateConflict { entity, id }) && entity@ == "agent_thread"@ && id@ == child.id@
    } else if child.parent_id is None {
        r matches Err(RuntimeError::InvalidArgument(msg)) && msg@ == "a worker without a parent agent thread cannot join"@
    } else if edge_joined {
        r matches Err(RuntimeError::StateConflict { entity, id }) && entity@ == "agent_thread"@ && id@ == child.id@
    } else if transition_refused(child.agent_kind, child.status, AgentThreadStatus::Joining) {
        r matches Err(e) && transition_refusal(child.agent_kind, child.status, AgentThreadStatus::Joining, e)
    } else {
        r == Ok::<String, RuntimeError>(child.parent_id->0)
    }
}

/// Whether a worker may join on its locked rows, given whether its delegation edge
/// already records a join; on success the parent joined into is returned. The worker
/// passes through `JOINING` to `JOINED`, both allowed by the lifecycle table and policy.
pub fn join_check(child: &AgentThread, generation: u64, edge_joined: bool) -> (r: Result<String, RuntimeError>)
    ensures
        join_outcome(*child, generation, edge_joined, r),
        r matches Ok(parent) ==> (generation >= child.generation && child.agent_kind == AgentKind::Worker
            && child.status != AgentThreadStatus::Joined && child.parent_id == Some(parent)
            && !edge_joined && !transition_refused(child.agent_kind, child.status, AgentThreadStatus::Joining)
            && !transition_refused(child.agent_kind, AgentThreadStatus::Joining, AgentThreadStatus::Joined)),
        r is Ok <== (generation >= child.generation && child.agent_kind == AgentKind::Worker && child.status
            != AgentThreadStatus::Joined && child.parent_id is Some && !edge_joined && !transition_refused(
            child.agent_kind,
            child.status,
            AgentThreadStatus::Joining,
        )),
        generation >= child.generation && child.agent_kind == AgentKind::Worker && child.status
            == AgentThreadStatus::Joined ==> (r matches Err(RuntimeError::StateConflict { entity, id }) && entity@
            == "agent_thread"@ && id@ == child.id@),
{
    match join_precheck(child, generation) {
        Ok(false) => {},
        Ok(true) => {
            return Err(RuntimeError::StateConflict { entity: owned("agent_thread"), id: child.id.clone() });
        },
        Err(e) => return Err(e),
    }
    let parent = match &child.parent_id {
        Some(p) => p.clone(),
        None => {
            return Err(RuntimeError::InvalidArgument(owned("a worker without a parent agent thread cannot join")));
        },
    };
    if edge_joined {
        return Err(RuntimeError::StateConflict { entity: owned("agent_thread"), id: child.id.clone() });
    }
    match check_transition(child.agent_kind, child.status, AgentThreadStatus::Joining) {
        Ok(()) => {},
        Err(e) => return Err(e),
    }
    match check_transition(child.agent_kind, AgentThreadStatus::Joining, AgentThreadStatus::Joined) {
        Ok(()) => {},
        Err(e) => return Err(e),
    }
    Ok(parent)
}

/// A teammate never joins, whatever its rows say.
pub proof fn law_teammate_never_joins(child: AgentThread, generation: u64, edge_joined: bool)
    requires
        child.agent_kind == AgentKind::Teammate,
    ensures
        transition_refused(child.agent_kind, child.status, AgentThreadStatus::Joining),
        transition_refused(child.agent_kind, AgentThreadStatus::Joining, AgentThreadStatus::Joined),
{
}

/// What a join does to the parent's run.
#[derive(Debug, Clone, PartialEq, Eq)]
pub enum ReleaseStep {
    /// The run is not waiting on this parent's children: nothing changes.
    NotWaiting,
    /// The worker is struck off, and siblings still run: the run stays parked.
    StillWaiting {
        /// Children the run still waits on.
        remaining: Vec<String>,
    },
    /// The last child joined: the run resumes.
    Resume,
}

/// The children list with the first occurrence of `child` removed.
pub open spec fn without_first(children: Seq<String>, child: Seq<char>) -> Seq<String> {
    if exists|i: int| 0 <= i < children.len() && (#[trigger] children[i])@ == child {
        let i = choose|i: int| 0 <= i < children.len() && (#[trigger] children[i])@ == child && forall|j: int|
            0 <= j < i ==> (#[trigger] children[j])@ != child;
        children.remove(i)
    } else {
        children
    }
}

/// What a worker's join does to the parent's run, from the locked run (status, owner and
/// generation) and the children its protocol state waits on. A stale recorded generation
/// is fenced; a run not waiting on a child of this parent is left alone; otherwise the
/// worker is struck off and the run resumes once no child is left.
pub fn parent_release(
    parent_id: &str,
    child_id: &str,
    run_status: &str,
    run_owner: &str,
    run_generation: u64,
    recorded_generation: Option<u64>,
    children: &Vec<String>,
) -> (r: Result<ReleaseStep, RuntimeError>)
    ensures
        (recorded_generation matches Some(g) && g < run_generation) ==> r == Err::<ReleaseStep, RuntimeError>(
            RuntimeError::FencedStaleGeneration { current: run_generation, received: recorded_generation->0 },
        ),
        r is Err ==> (recorded_generation matches Some(g) && g < run_generation),
        r matches Ok(step) ==> if run_status@ != "WAITING_CHILD"@ || run_owner@ != parent_id@ {
            step == ReleaseStep::NotWaiting
        } else {
            let rest = without_first(children@, child_id@);
            if rest.len() == 0 {
                step == ReleaseStep::Resume
            } else {
                step matches ReleaseStep::StillWaiting { remaining } && remaining@ == rest
            }
        },
{
    if let Some(recorded) = recorded_generation {
        match fence(run_generation, recorded) {
            Ok(()) => {},
            Err(e) => return Err(e),
        }
    }
    if !str_eq(run_status, "WAITING_CHILD") || !str_eq(run_owner, parent_id) {
        return Ok(ReleaseStep::NotWaiting);
    }
    let mut i: usize = 0;
    while i < children.len() && !str_eq(children[i].as_str(), child_id)
        invariant
            i <= children@.len(),
            forall|j: int| 0 <= j < i ==> (#[trigger] children@[j])@ != child_id@,
        decreases children@.len() - i,
    {
        i = i + 1;
    }
    let mut remaining: Vec<String> = Vec::new();
    let mut k: usize = 0;
    while k < children.len()
        invariant
            k <= children@.len(),
            i <= children@.len(),
            remaining@ == (if k <= i {
                children@.take(k as int)
            } else {
                children@.take(k as int).remove(i as int)
            }),
        decreases children@.len() - k,
    {
        if k != i {
            remaining.push(children[k].clone());
        }
        proof {
            if k < i {
                assert(children@.take(k + 1) =~= children@.take(k as int).push(children@[k as int]));
            } else if k == i {
                assert(children@.take(k + 1).remove(i as int) =~= children@.take(k as int));
            } else {
                assert(children@.take(k + 1).remove(i as int) =~= children@.take(k as int).remove(i as int).push(
                    children@[k as int],
                ));
            }
        }
        k = k + 1;
    }
    proof {
        if i < children@.len() {
            assert(children@.take(children@.len() as int) =~= children@);
            let c = choose|c: int| 0 <= c < children@.len() && (#[trigger] children@[c])@ == child_id@ && forall|j: int|
                0 <= j < c ==> (#[trigger] children@[j])@ != child_id@;
            assert(children@[i as int]@ == child_id@);
            if c < i {
                assert(children@[c]@ != child_id@);
            }
            if c > i {
                assert(children@[i as int]@ != child_id@);
            }
        } else {
            assert(children@.take(children@.len() as int) =~= children@);
            assert(!(exists|c: int| 0 <= c < children@.len() && (#[trigger] children@[c])@ == child_id@));
        }
    }
    if remaining.len() > 0 {
        Ok(ReleaseStep::StillWaiting { remaining })
    } else {
        Ok(ReleaseStep::Resume)
    }
}

} // verus!
