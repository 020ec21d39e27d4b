//! Checkpoint metadata and generation ownership.
//!
//! A checkpoint is a recoverable snapshot reference of workspace files, a browser session
//! or a terminal. This module owns the metadata and the ownership rules; the bytes live in
//! object storage. Recovery may only restore a checkpoint that no newer generation made
//! and that has not expired, so a stale controller cannot roll a workspace under a newer
//! one.

use vstd::prelude::*;
use crate::text::{seq_lt, str_eq, str_lt};

verus! {

/// What a checkpoint captures.
#[derive(Debug, Clone, Copy, PartialEq, Eq, Structural)]
pub enum CheckpointKind {
    /// Workspace files inside the execution target.
    WorkspaceFiles,
    /// Browser session (profile, tabs, cookies), never the desktop process.
    BrowserSession,
    /// Terminal state and byte cursor.
    Terminal,
    /// Everything the target holds.
    Full,
}

/// The stored name of a checkpoint kind.
pub open spec fn checkpoint_kind_name(k: CheckpointKind) -> Seq<char> {
    match k {
        CheckpointKind::WorkspaceFiles => "workspace_files"@,
        CheckpointKind::BrowserSession => "browser_session"@,
        CheckpointKind::Terminal => "terminal"@,
        CheckpointKind::Full => "full"@,
    }
}

impl CheckpointKind {
    /// The stored name.
    pub fn as_str(self) -> (r: &'static str)
        ensures
            r@ == checkpoint_kind_name(self),
    {
        match self {
            CheckpointKind::WorkspaceFiles => "workspace_files",
            CheckpointKind::BrowserSession => "browser_session",
            CheckpointKind::Terminal => "terminal",
            CheckpointKind::Full => "full",
        }
    }

    /// The kind a stored name names, if any.
    pub fn parse(value: &str) -> (r: Option<CheckpointKind>)
        ensures
            match r {
                Some(k) => checkpoint_kind_name(k) == value@,
                None => forall|k: CheckpointKind| checkpoint_kind_name(k) != value@,
            },
    {
        if str_eq(value, "workspace_files") {
            Some(CheckpointKind::WorkspaceFiles)
        } else if str_eq(value, "browser_session") {
            Some(CheckpointKind::BrowserSession)
        } else if str_eq(value, "terminal") {
            Some(CheckpointKind::Terminal)
        } else if str_eq(value, "full") {
            Some(CheckpointKind::Full)
        } else {
            proof {
                assert forall|k: CheckpointKind| checkpoint_kind_name(k) != value@ by {
                    match k {
                        CheckpointKind::WorkspaceFiles => {},
                        CheckpointKind::BrowserSession => {},
                        CheckpointKind::Terminal => {},
                        CheckpointKind::Full => {},
                    }
                }
            }
            None
        }
    }
}

/// Distinct kinds have distinct stored names, so a name parses back to its kind.
pub proof fn law_checkpoint_kind_names_round_trip(a: CheckpointKind, b: CheckpointKind)
    ensures
        checkpoint_kind_name(a) == checkpoint_kind_name(b) ==> a == b,
{
    reveal_strlit("workspace_files");
    reveal_strlit("browser_session");
    reveal_strlit("terminal");
    reveal_strlit("full");
    if checkpoint_kind_name(a) == checkpoint_kind_name(b) && a != b {
        let x = checkpoint_kind_name(a);
        let y = checkpoint_kind_name(b);
        assert(x.len() != y.len() || x[0] != y[0]);
    }
}

/// Checkpoint metadata.
#[derive(Debug, Clone, PartialEq, Eq)]
pub struct Checkpoint {
    /// Checkpoint id.
    pub id: String,
    /// Execution target the snapshot belongs to.
    pub execution_target_id: String,
    /// Run that created it, when applicable.
    pub run_id: Option<String>,
    /// What was captured.
    pub kind: CheckpointKind,
    /// Object-storage reference (key and digest).
    pub storage_ref: String,
    /// Generation that created it.
    pub generation: i64,
    /// Snapshot size in bytes.
    pub size_bytes: i64,
    /// Restore policy marker (for example `manual_only`, `auto_on_failure`).
    pub restore_policy: Option<String>,
    /// RFC 3339 expiry.
    pub expires_at: Option<String>,
}

/// Request to record a checkpoint.
#[derive(Debug, Clone)]
pub struct NewCheckpoint {
    /// Checkpoint id.
    pub id: String,
    /// Execution target the snapshot belongs to.
    pub execution_target_id: String,
    /// Run that created it.
    pub run_id: Option<String>,
    /// What was captured.
    pub kind: CheckpointKind,
    /// Object-storage reference.
    pub storage_ref: String,
    /// Generation that created it.
    pub generation: i64,
    /// Snapshot size in bytes.
    pub size_bytes: i64,
    /// Restore policy marker.
    pub restore_policy: Option<String>,
    /// RFC 3339 expiry.
    pub expires_at: Option<String>,
}

/// A checkpoint refusal or failure.
#[derive(Debug, Clone, PartialEq, Eq)]
pub enum CheckpointError {
    /// The database rejected the operation.
    Database(String),
    /// The tenant context could not be established.
    Schema(String),
    /// The checkpoint does not exist.
    NotFound(String),
    /// The checkpoint was produced by a generation the caller does not hold.
    StaleGeneration {
        /// Checkpoint id.
        id: String,
        /// Generation that created the checkpoint.
        checkpoint_generation: i64,
        /// Generation the caller holds.
        current: i64,
    },
    /// The checkpoint expired.
    Expired(String),
    /// The stored kind is not a known kind.
    UnknownKind(String),
}

/// The durable checkpoint metadata store's decisions.
pub struct CheckpointStore;

/// Whether an optional expiry lies before `now`, comparing the RFC 3339 texts.
pub open spec fn expired_before(expires_at: Option<String>, now: Seq<char>) -> bool {
    expires_at matches Some(e) && seq_lt(e@, now)
}

impl CheckpointStore {
    /// The kind a stored kind column holds.
    pub fn kind_from_column(value: String) -> (r: Result<CheckpointKind, CheckpointError>)
        ensures
            match r {
                Ok(k) => checkpoint_kind_name(k) == value@,
                Err(e) => e == CheckpointError::UnknownKind(value) && forall|k: CheckpointKind| checkpoint_kind_name(k) != value@,
            },
    {
        match CheckpointKind::parse(value.as_str()) {
            Some(k) => Ok(k),
            None => Err(CheckpointError::UnknownKind(value)),
        }
    }

    /// Whether the loaded `checkpoint` may be restored by a controller at
    /// `current_generation` at time `now`: a checkpoint from a newer generation would roll
    /// the workspace forward under a fenced holder, and an expired one is gone.
    pub fn restore_check(checkpoint: Checkpoint, current_generation: i64, now: &str) -> (r: Result<Checkpoint, CheckpointError>)
        ensures
            checkpoint.generation > current_generation ==> r == Err::<Checkpoint, CheckpointError>(
                CheckpointError::StaleGeneration {
                    id: checkpoint.id,
                    checkpoint_generation: checkpoint.generation,
                    current: current_generation,
                },
            ),
            checkpoint.generation <= current_generation && expired_before(checkpoint.expires_at, now@) ==> r == Err::<
                Checkpoint,
                CheckpointError,
            >(CheckpointError::Expired(checkpoint.id)),
            checkpoint.generation <= current_generation && !expired_before(checkpoint.expires_at, now@) ==> r == Ok::<
                Checkpoint,
                CheckpointError,
            >(checkpoint),
    {
        if checkpoint.generation > current_generation {
            return Err(
                CheckpointError::StaleGeneration {
                    id: checkpoint.id,
                    checkpoint_generation: checkpoint.generation,
                    current: current_generation,
                },
            );
        }
        let expired = match &checkpoint.expires_at {
            Some(expires_at) => str_lt(expires_at.as_str(), now),
            None => false,
        };
        if expired {
            return Err(CheckpointError::Expired(checkpoint.id));
        }
        Ok(checkpoint)
    }
}

} // verus!
