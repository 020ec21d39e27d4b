//! Agent thread lifecycle, mailbox, delegation, handoff and join.
//!
//! Lifecycle policy is one state table plus two rules, so persistent teammates and
//! ephemeral workers share every primitive:
//!
//! * a persistent teammate never reaches `JOINED` (nor `JOINING`);
//! * a worker must join before it can terminate normally.
//!
//! `JOINING → JOINED` is applied in one step by the join, which merges the worker's
//! outcome into its parent at the same time.

pub mod store;

use vstd::prelude::*;
use crate::text::{owned, str_eq};

verus! {

/// The rule refusing a teammate's join.
pub const TEAMMATE_CANNOT_JOIN: &'static str = "teammate_cannot_join";

/// The rule refusing a worker's termination before it joined.
pub const WORKER_MUST_JOIN_BEFORE_TERMINATE: &'static str = "worker_must_join_before_terminate";

/// A refused runtime operation on agent threads, handoffs and joins.
#[derive(Debug, Clone, PartialEq, Eq)]
pub enum RuntimeError {
    /// A stored state value is not one the runtime knows.
    UnknownState {
        /// The kind of row.
        entity: String,
        /// The value found.
        value: String,
    },
    /// The lifecycle table does not allow the transition.
    IllegalTransition {
        /// The kind of row.
        entity: String,
        /// State it holds.
        from: String,
        /// State or operation requested.
        to: String,
    },
    /// The agent kind's lifecycle policy forbids the transition.
    LifecyclePolicy {
        /// State it holds.
        from: String,
        /// State requested.
        to: String,
        /// The rule that refused it.
        rule: String,
    },
    /// An actor carried a generation behind the row's.
    FencedStaleGeneration {
        /// Generation the row holds.
        current: u64,
        /// Generation the actor carried.
        received: u64,
    },
    /// The row changed underneath the operation.
    StateConflict {
        /// The kind of row.
        entity: String,
        /// Row id.
        id: String,
    },
    /// A handoff can no longer complete or roll back.
    HandoffNotRecoverable {
        /// Handoff id.
        handoff_id: String,
        /// Status that refuses it.
        status: String,
    },
    /// A delegation would widen the child's capability.
    CapabilityWideningRejected {
        /// Why.
        detail: String,
    },
    /// A caller-supplied argument is not valid.
    InvalidArgument(String),
    /// The row is not visible in this tenant.
    NotFound {
        /// The kind of row.
        entity: String,
        /// Row id.
        id: String,
    },
    /// The event log refused the commit.
    Event(String),
    /// The tenant context could not be established.
    Schema(String),
}

/// Whether an actor carrying `received` may act on a row at generation `current`: an
/// actor behind the row is stale, an equal or newer generation is current.
pub fn fence(current: u64, received: u64) -> (r: Result<(), RuntimeError>)
    ensures
        r is Ok <==> received >= current,
        r is Err ==> r == Err::<(), RuntimeError>(RuntimeError::FencedStaleGeneration { current, received }),
{
    if received >= current {
        Ok(())
    } else {
        Err(RuntimeError::FencedStaleGeneration { current, received })
    }
}

/// Whether an agent thread is a persistent teammate or an ephemeral worker.
#[derive(Debug, Clone, Copy, PartialEq, Eq, Hash, Structural)]
pub enum AgentKind {
    /// A persistent teammate; never joins.
    Teammate,
    /// An ephemeral worker; joins its parent before it terminates.
    Worker,
}

/// The stored spelling of an agent kind.
pub open spec fn kind_name(k: AgentKind) -> Seq<char> {
    match k {
        AgentKind::Teammate => "teammate"@,
        AgentKind::Worker => "worker"@,
    }
}

impl AgentKind {
    /// The stored spelling.
    pub fn as_db_str(self) -> (s: &'static str)
        ensures
            s@ == kind_name(self),
    {
        match self {
            AgentKind::Teammate => "teammate",
            AgentKind::Worker => "worker",
        }
    }

    /// Parse the stored spelling.
    pub fn from_db_str(value: &str) -> (r: Result<AgentKind, RuntimeError>)
        ensures
            r matches Ok(k) ==> kind_name(k) == value@,
            r is Err ==> forall|k: AgentKind| kind_name(k) != value@,
            r matches Err(e) ==> e matches RuntimeError::UnknownState { entity, value: v } && entity@
                == "agent_thread"@ && v@ == value@,
    {
        if str_eq(value, "teammate") {
            Ok(AgentKind::Teammate)
        } else if str_eq(value, "worker") {
            Ok(AgentKind::Worker)
        } else {
            proof {
                assert forall|k: AgentKind| kind_name(k) != value@ by {
                    match k {
                        AgentKind::Teammate => {},
                        AgentKind::Worker => {},
                    }
                }
            }
            Err(RuntimeError::UnknownState { entity: owned("agent_thread"), value: owned(value) })
        }
    }
}

/// The lifecycle status of an agent thread.
#[derive(Debug, Clone, Copy, PartialEq, Eq, Hash, Structural)]
pub enum AgentThreadStatus {
    /// Created, not yet running.
    Provisioned,
    /// Running.
    Active,
    /// Paused.
    Suspended,
    /// Handing its work to another thread.
    HandingOff,
    /// Its work was handed to another thread.
    HandedOff,
    /// Joining its parent.
    Joining,
    /// Joined its parent.
    Joined,
    /// Finished.
    Terminated,
}

/// The stored spelling of a thread status.
pub open spec fn status_name(s: AgentThreadStatus) -> Seq<char> {
    match s {
        AgentThreadStatus::Provisioned => "PROVISIONED"@,
        AgentThreadStatus::Active => "ACTIVE"@,
        AgentThreadStatus::Suspended => "SUSPENDED"@,
        AgentThreadStatus::HandingOff => "HANDING_OFF"@,
        AgentThreadStatus::HandedOff => "HANDED_OFF"@,
        AgentThreadStatus::Joining => "JOINING"@,
        AgentThreadStatus::Joined => "JOINED"@,
        AgentThreadStatus::Terminated => "TERMINATED"@,
    }
}

/// The lifecycle table: which status may follow which.
pub open spec fn allowed(from: AgentThreadStatus, to: AgentThreadStatus) -> bool {
    match from {
        AgentThreadStatus::Provisioned => to == AgentThreadStatus::Active || to == AgentThreadStatus::Terminated,
        AgentThreadStatus::Active => to == AgentThreadStatus::Suspended || to == AgentThreadStatus::HandingOff
            || to == AgentThreadStatus::Joining || to == AgentThreadStatus::Terminated,
        AgentThreadStatus::Suspended => to == AgentThreadStatus::Active || to == AgentThreadStatus::Terminated,
        AgentThreadStatus::HandingOff => to == AgentThreadStatus::HandedOff || to == AgentThreadStatus::Terminated,
        AgentThreadStatus::HandedOff => to == AgentThreadStatus::Terminated,
        AgentThreadStatus::Joining => to == AgentThreadStatus::Joined || to == AgentThreadStatus::Terminated,
        AgentThreadStatus::Joined => to == AgentThreadStatus::Terminated,
        AgentThreadStatus::Terminated => false,
    }
}

impl AgentThreadStatus {
    /// Every status, in lifecycle order.
    pub const ALL: [AgentThreadStatus; 8] = [
        AgentThreadStatus::Provisioned,
        AgentThreadStatus::Active,
        AgentThreadStatus::Suspended,
        AgentThreadStatus::HandingOff,
        AgentThreadStatus::HandedOff,
        AgentThreadStatus::Joining,
        AgentThreadStatus::Joined,
        AgentThreadStatus::Terminated,
    ];

    /// The stored spelling.
    pub fn as_db_str(self) -> (s: &'static str)
        ensures
            s@ == status_name(self),
    {
        match self {
            AgentThreadStatus::Provisioned => "PROVISIONED",
            AgentThreadStatus::Active => "ACTIVE",
            AgentThreadStatus::Suspended => "SUSPENDED",
            AgentThreadStatus::HandingOff => "HANDING_OFF",
            AgentThreadStatus::HandedOff => "HANDED_OFF",
            AgentThreadStatus::Joining => "JOINING",
            AgentThreadStatus::Joined => "JOINED",
            AgentThreadStatus::Terminated => "TERMINATED",
        }
    }

    /// Parse the stored spelling.
    pub fn from_db_str(value: &str) -> (r: Result<AgentThreadStatus, RuntimeError>)
        ensures
            r matches Ok(s) ==> status_name(s) == value@,
            r is Err ==> forall|s: AgentThreadStatus| status_name(s) != value@,
            r matches Err(e) ==> e matches RuntimeError::UnknownState { entity, value: v } && entity@
                == "agent_thread"@ && v@ == value@,
    {
        if str_eq(value, "PROVISIONED") {
            Ok(AgentThreadStatus::Provisioned)
        } else if str_eq(value, "ACTIVE") {
            Ok(AgentThreadStatus::Active)
        } else if str_eq(value, "SUSPENDED") {
            Ok(AgentThreadStatus::Suspended)
        } else if str_eq(value, "HANDING_OFF") {
            Ok(AgentThreadStatus::HandingOff)
        } else if str_eq(value, "HANDED_OFF") {
            Ok(AgentThreadStatus::HandedOff)
        } else if str_eq(value, "JOINING") {
            Ok(AgentThreadStatus::Joining)
        } else if str_eq(value, "JOINED") {
            Ok(AgentThreadStatus::Joined)
        } else if str_eq(value, "TERMINATED") {
            Ok(AgentThreadStatus::Terminated)
        } else {
            proof {
                assert forall|s: AgentThreadStatus| status_name(s) != value@ by {
                    match s {
                        AgentThreadStatus::Provisioned => {},
                        AgentThreadStatus::Active => {},
                        AgentThreadStatus::Suspended => {},
                        AgentThreadStatus::HandingOff => {},
                        AgentThreadStatus::HandedOff => {},
                        AgentThreadStatus::Joining => {},
                        AgentThreadStatus::Joined => {},
                        AgentThreadStatus::Terminated => {},
                    }
                }
            }
            Err(RuntimeError::UnknownState { entity: owned("agent_thread"), value: owned(value) })
        }
    }

    /// Whether the thread can no longer change.
    pub fn is_terminal(self) -> (r: bool)
        ensures
            r == (self == AgentThreadStatus::Terminated),
    {
        match self {
            AgentThreadStatus::Terminated => true,
            _ => false,
        }
    }

    /// Whether the lifecycle table allows `self → to`.
    pub fn can_transition_to(self, to: AgentThreadStatus) -> (r: bool)
        ensures
            r == allowed(self, to),
    {
        match self {
            AgentThreadStatus::Provisioned => to == AgentThreadStatus::Active || to == AgentThreadStatus::Terminated,
            AgentThreadStatus::Active => to == AgentThreadStatus::Suspended || to == AgentThreadStatus::HandingOff
                || to == AgentThreadStatus::Joining || to == AgentThreadStatus::Terminated,
            AgentThreadStatus::Suspended => to == AgentThreadStatus::Active || to == AgentThreadStatus::Terminated,
            AgentThreadStatus::HandingOff => to == AgentThreadStatus::HandedOff || to == AgentThreadStatus::Terminated,
            AgentThreadStatus::HandedOff => to == AgentThreadStatus::Terminated,
            AgentThreadStatus::Joining => to == AgentThreadStatus::Joined || to == AgentThreadStatus::Terminated,
            AgentThreadStatus::Joined => to == AgentThreadStatus::Terminated,
            AgentThreadStatus::Terminated => false,
        }
    }
}

/// The rule of `kind`'s lifecycle policy that refuses `from → to`, if any.
pub open spec fn policy_refusal(kind: AgentKind, from: AgentThreadStatus, to: AgentThreadStatus) -> Option<Seq<char>> {
    if kind == AgentKind::Teammate && (to == AgentThreadStatus::Joining || to == AgentThreadStatus::Joined) {
        Some("teammate_cannot_join"@)
    } else if kind == AgentKind::Worker && to == AgentThreadStatus::Terminated && from != AgentThreadStatus::Joined {
        Some("worker_must_join_before_terminate"@)
    } else {
        None
    }
}

/// Apply the kind's lifecycle policy to `from → to`.
pub fn check_lifecycle_policy(kind: AgentKind, from: AgentThreadStatus, to: AgentThreadStatus) -> (r: Result<
    (),
    RuntimeError,
>)
    ensures
        r is Ok <==> policy_refusal(kind, from, to) is None,
        r matches Err(e) ==> e matches RuntimeError::LifecyclePolicy { from: f, to: t, rule } && f@ == status_name(from)
            && t@ == status_name(to) && Some(rule@) == policy_refusal(kind, from, to),
{
    if kind == AgentKind::Teammate && (to == AgentThreadStatus::Joining || to == AgentThreadStatus::Joined) {
        return Err(
            RuntimeError::LifecyclePolicy {
                from: owned(from.as_db_str()),
                to: owned(to.as_db_str()),
                rule: owned(TEAMMATE_CANNOT_JOIN),
            },
        );
    }
    if kind == AgentKind::Worker && to == AgentThreadStatus::Terminated && from != AgentThreadStatus::Joined {
        return Err(
            RuntimeError::LifecyclePolicy {
                from: owned(from.as_db_str()),
                to: owned(to.as_db_str()),
                rule: owned(WORKER_MUST_JOIN_BEFORE_TERMINATE),
            },
        );
    }
    Ok(())
}

/// The `agent.*` event a transition into `to` records; provisioning and the joining
/// intermediate have none.
pub open spec fn event_name_of(to: AgentThreadStatus) -> Option<Seq<char>> {
    match to {
        AgentThreadStatus::Provisioned => None,
        AgentThreadStatus::Joining => None,
        AgentThreadStatus::Active => Some("agent.activated"@),
        AgentThreadStatus::Suspended => Some("agent.suspended"@),
        AgentThreadStatus::HandingOff => Some("agent.handoff_started"@),
        AgentThreadStatus::HandedOff => Some("agent.handoff_completed"@),
        AgentThreadStatus::Joined => Some("agent.joined"@),
        AgentThreadStatus::Terminated => Some("agent.terminated"@),
    }
}

/// The `agent.*` event a transition into `to` records.
pub fn agent_event_name(to: AgentThreadStatus) -> (r: Option<&'static str>)
    ensures
        match event_name_of(to) {
            Some(n) => r matches Some(s) && s@ == n,
            None => r is None,
        },
{
    match to {
        AgentThreadStatus::Provisioned => None,
        AgentThreadStatus::Joining => None,
        AgentThreadStatus::Active => Some("agent.activated"),
        AgentThreadStatus::Suspended => Some("agent.suspended"),
        AgentThreadStatus::HandingOff => Some("agent.handoff_started"),
        AgentThreadStatus::HandedOff => Some("agent.handoff_completed"),
        AgentThreadStatus::Joined => Some("agent.joined"),
        AgentThreadStatus::Terminated => Some("agent.terminated"),
    }
}

/// The lifecycle laws: a teammate never enters `JOINING` or `JOINED`, a worker only
/// terminates once joined, and `TERMINATED` is final.
pub proof fn law_lifecycle_policy(kind: AgentKind, from: AgentThreadStatus, to: AgentThreadStatus)
    ensures
        kind == AgentKind::Teammate && (to == AgentThreadStatus::Joining || to == AgentThreadStatus::Joined)
            ==> policy_refusal(kind, from, to) is Some,
        kind == AgentKind::Worker && to == AgentThreadStatus::Terminated && (allowed(from, to) && policy_refusal(
            kind,
            from,
            to,
        ) is None) ==> from == AgentThreadStatus::Joined,
        !allowed(AgentThreadStatus::Terminated, to),
        allowed(from, to) ==> from != to,
{
}

/// Each status name parses back to its status.
pub proof fn law_status_names_round_trip(a: AgentThreadStatus, b: AgentThreadStatus)
    ensures
        status_name(a) == status_name(b) ==> a == b,
{
    reveal_strlit("PROVISIONED");
    reveal_strlit("ACTIVE");
    reveal_strlit("SUSPENDED");
    reveal_strlit("HANDING_OFF");
    reveal_strlit("HANDED_OFF");
    reveal_strlit("JOINING");
    reveal_strlit("JOINED");
    reveal_strlit("TERMINATED");
    if status_name(a) == status_name(b) && a != b {
        let x = status_name(a);
        let y = status_name(b);
        assert(x.len() != y.len() || x[0] != y[0] || x[1] != y[1] || x[5] != y[5] || x[6] != y[6]);
    }
}

} // verus!
