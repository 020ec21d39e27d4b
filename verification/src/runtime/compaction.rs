//! Compaction epochs and the staleness rule.
//!
//! A compaction epoch is a versioned summary of a range of a thread's event history: it
//! names the sequence range it stands in for, the artifact holding the summary and the
//! model route that produced it. This module decides the epoch's lifecycle: create,
//! install, reject.
//!
//! A fork or revert never installs compaction from abandoned history. An epoch may only be
//! installed while the position the caller holds still contains the range it summarises
//! and while it belongs to the run the caller works on. A revert moves the position back,
//! so an epoch whose range ends beyond it is refused; a fork leaves the epoch on another
//! run, so it is refused. Either refusal moves the epoch to `rejected_stale`: the epoch is
//! never deleted, because the refusal is itself the auditable fact. A caller whose
//! generation fence is stale is no longer the writer and decides nothing.

use vstd::prelude::*;
use crate::text::{copy_opt_string, owned, str_eq};

verus! {

/// The lifecycle state of an epoch.
#[derive(Debug, Clone, Copy, PartialEq, Eq, Structural)]
pub enum EpochStatus {
    /// Created, not yet installed.
    Pending,
    /// Installed: the summary may stand in for its range in a model's context.
    Installed,
    /// Refused because the history it summarises is no longer the caller's lineage.
    RejectedStale,
}

/// The stored name of a status.
pub open spec fn epoch_status_name(s: EpochStatus) -> Seq<char> {
    match s {
        EpochStatus::Pending => "pending"@,
        EpochStatus::Installed => "installed"@,
        EpochStatus::RejectedStale => "rejected_stale"@,
    }
}

impl EpochStatus {
    /// The stored name.
    pub fn as_str(self) -> (r: &'static str)
        ensures
            r@ == epoch_status_name(self),
    {
        match self {
            EpochStatus::Pending => "pending",
            EpochStatus::Installed => "installed",
            EpochStatus::RejectedStale => "rejected_stale",
        }
    }

    /// The status a stored name names, if any.
    pub fn parse(value: &str) -> (r: Option<EpochStatus>)
        ensures
            match r {
                Some(s) => epoch_status_name(s) == value@,
                None => forall|s: EpochStatus| epoch_status_name(s) != value@,
            },
    {
        if str_eq(value, "pending") {
            Some(EpochStatus::Pending)
        } else if str_eq(value, "installed") {
            Some(EpochStatus::Installed)
        } else if str_eq(value, "rejected_stale") {
            Some(EpochStatus::RejectedStale)
        } else {
            proof {
                assert forall|s: EpochStatus| epoch_status_name(s) != value@ by {
                    match s {
                        EpochStatus::Pending => {},
                        EpochStatus::Installed => {},
                        EpochStatus::RejectedStale => {},
                    }
                }
            }
            None
        }
    }
}

/// Distinct statuses have distinct stored names, so a name parses back to its status.
pub proof fn law_epoch_status_names_round_trip(a: EpochStatus, b: EpochStatus)
    ensures
        epoch_status_name(a) == epoch_status_name(b) ==> a == b,
{
    reveal_strlit("pending");
    reveal_strlit("installed");
    reveal_strlit("rejected_stale");
    assert("pending"@.len() == 7 && "installed"@.len() == 9 && "rejected_stale"@.len() == 14);
}

/// One compaction epoch.
#[derive(Debug, Clone, PartialEq, Eq)]
pub struct CompactionEpoch {
    /// Epoch id.
    pub id: String,
    /// Thread whose history it summarises.
    pub thread_id: String,
    /// Run that produced it, when it was produced inside a run.
    pub run_id: Option<String>,
    /// Per-thread ordinal.
    pub seq: i32,
    /// First event sequence the summary stands in for.
    pub source_from_sequence: i64,
    /// Last event sequence the summary stands in for.
    pub source_to_sequence: i64,
    /// Artifact holding the summary text, when it has been written.
    pub summary_artifact_id: Option<String>,
    /// Estimated tokens the summary costs.
    pub token_estimate: i64,
    /// Lifecycle state.
    pub status: EpochStatus,
    /// Route that produced the summary.
    pub created_by_model_route_id: Option<String>,
}

impl CompactionEpoch {
    /// Whether this epoch may still stand in for the history a caller holds at `position`:
    /// a range ending beyond it summarises history the caller's lineage does not contain.
    pub fn covers_position(&self, position: i64) -> (r: bool)
        ensures
            r == (self.source_to_sequence <= position),
    {
        self.source_to_sequence <= position
    }

    /// The same epoch in status `status`.
    fn with_status(&self, status: EpochStatus) -> (r: CompactionEpoch)
        ensures
            r == (CompactionEpoch { status, ..*self }),
    {
        CompactionEpoch {
            id: self.id.clone(),
            thread_id: self.thread_id.clone(),
            run_id: copy_opt_string(&self.run_id),
            seq: self.seq,
            source_from_sequence: self.source_from_sequence,
            source_to_sequence: self.source_to_sequence,
            summary_artifact_id: copy_opt_string(&self.summary_artifact_id),
            token_estimate: self.token_estimate,
            status,
            created_by_model_route_id: copy_opt_string(&self.created_by_model_route_id),
        }
    }
}

/// Request to create an epoch.
#[derive(Debug, Clone)]
pub struct NewEpoch {
    /// Epoch id.
    pub id: String,
    /// Thread whose history it summarises.
    pub thread_id: String,
    /// Run that produced it.
    pub run_id: Option<String>,
    /// Per-thread ordinal.
    pub seq: i32,
    /// First event sequence of the range.
    pub source_from_sequence: i64,
    /// Last event sequence of the range.
    pub source_to_sequence: i64,
    /// Artifact holding the summary.
    pub summary_artifact_id: Option<String>,
    /// Estimated tokens the summary costs.
    pub token_estimate: i64,
    /// Route that produced the summary.
    pub created_by_model_route_id: Option<String>,
}

/// What the installing caller holds: its run, its generation fence and its position.
#[derive(Debug, Clone, PartialEq, Eq)]
pub struct CompactionFence {
    /// Run the caller works on.
    pub run_id: String,
    /// Generation the caller holds; a newer controller has a higher one.
    pub generation: i64,
    /// Sequence the caller has committed to.
    pub position: i64,
}

/// A compaction refusal or failure.
#[derive(Debug, Clone, PartialEq, Eq)]
pub enum CompactionError {
    /// The database rejected the operation.
    Database(String),
    /// The tenant context could not be established.
    Schema(String),
    /// The epoch does not exist.
    NotFound(String),
    /// The range is not ordered.
    RangeInvalid {
        /// First sequence.
        from: i64,
        /// Last sequence.
        to: i64,
    },
    /// Only a pending epoch may be installed.
    NotPending {
        /// Epoch id.
        id: String,
        /// Its current status.
        status: String,
    },
    /// The epoch belongs to abandoned history: a fork left it on another run.
    StaleRun {
        /// Epoch id.
        epoch_id: String,
        /// Run the epoch belongs to.
        epoch_run: String,
        /// Run the caller holds.
        fence_run: String,
    },
    /// The caller's fence is stale: another controller owns the run.
    StaleGeneration {
        /// Run id.
        run_id: String,
        /// Generation recorded for the run.
        stored: i64,
        /// Generation the caller holds.
        held: i64,
    },
    /// The epoch summarises history beyond the position the caller's lineage contains.
    StalePosition {
        /// Epoch id.
        epoch_id: String,
        /// Last sequence the epoch covers.
        covers: i64,
        /// Sequence the caller holds.
        position: i64,
    },
    /// The stored status is not a known status.
    UnknownStatus(String),
}

/// The result of asking to install an epoch. A stale refusal is a decided state the epoch
/// moves into, so it is an outcome, not an error; a stale generation hands the epoch back
/// unchanged, since a fenced-out caller must not write a decision.
#[derive(Debug)]
pub enum InstallOutcome {
    /// The epoch was installed and may stand in for its range.
    Installed(CompactionEpoch),
    /// The epoch was refused.
    Rejected {
        /// The epoch as it now stands.
        epoch: CompactionEpoch,
        /// Why it was refused.
        refusal: CompactionError,
    },
}

/// The durable compaction-epoch store's decisions.
pub struct CompactionStore;

/// The status a stored status column holds.
pub fn status_from_column(value: String) -> (r: Result<EpochStatus, CompactionError>)
    ensures
        match r {
            Ok(s) => epoch_status_name(s) == value@,
            Err(e) => e == CompactionError::UnknownStatus(value) && forall|s: EpochStatus| epoch_status_name(s) != value@,
        },
{
    match EpochStatus::parse(value.as_str()) {
        Some(s) => Ok(s),
        None => Err(CompactionError::UnknownStatus(value)),
    }
}

/// The text of an optional string, empty when absent.
pub open spec fn optional_text(o: Option<String>) -> Seq<char> {
    match o {
        Some(x) => x@,
        None => Seq::empty(),
    }
}

/// Whether the caller's run is not the run the epoch belongs to.
pub open spec fn forked_away(epoch: CompactionEpoch, fence: CompactionFence) -> bool {
    epoch.run_id matches Some(r) && r@ != fence.run_id@
}

impl CompactionStore {
    /// Check a new epoch's range before it is recorded.
    pub fn check_range(epoch: &NewEpoch) -> (r: Result<(), CompactionError>)
        ensures
            r is Ok <==> epoch.source_from_sequence <= epoch.source_to_sequence,
            r matches Err(e) ==> e == (CompactionError::RangeInvalid {
                from: epoch.source_from_sequence,
                to: epoch.source_to_sequence,
            }),
    {
        if epoch.source_to_sequence < epoch.source_from_sequence {
            return Err(CompactionError::RangeInvalid { from: epoch.source_from_sequence, to: epoch.source_to_sequence });
        }
        Ok(())
    }

    /// The first step of installing the loaded `epoch`: refuse an epoch already decided,
    /// reject one a fork left on another run, and otherwise ask for the run's stored
    /// generation (`Ok(None)`).
    pub fn install_precheck(epoch: &CompactionEpoch, fence: &CompactionFence) -> (r: Result<Option<InstallOutcome>, CompactionError>)
        ensures
            epoch.status != EpochStatus::Pending <==> r is Err,
            r matches Err(e) ==> (e matches CompactionError::NotPending { id, status } && id == epoch.id && status@
                == epoch_status_name(epoch.status)),
            r matches Ok(Some(o)) ==> epoch.status == EpochStatus::Pending && forked_away(*epoch, *fence) && (o matches InstallOutcome::Rejected {
                epoch: e2,
                refusal,
            } && e2 == (CompactionEpoch { status: EpochStatus::RejectedStale, ..*epoch })
                && refusal == (CompactionError::StaleRun {
                epoch_id: epoch.id,
                epoch_run: epoch.run_id->0,
                fence_run: fence.run_id,
            })),
            r matches Ok(None) ==> epoch.status == EpochStatus::Pending && !forked_away(*epoch, *fence),
    {
        if epoch.status != EpochStatus::Pending {
            return Err(CompactionError::NotPending { id: epoch.id.clone(), status: owned(epoch.status.as_str()) });
        }
        match &epoch.run_id {
            Some(epoch_run) => {
                if !str_eq(epoch_run.as_str(), fence.run_id.as_str()) {
                    return Ok(
                        Some(
                            InstallOutcome::Rejected {
                                epoch: epoch.with_status(EpochStatus::RejectedStale),
                                refusal: CompactionError::StaleRun {
                                    epoch_id: epoch.id.clone(),
                                    epoch_run: epoch_run.clone(),
                                    fence_run: fence.run_id.clone(),
                                },
                            },
                        ),
                    );
                }
            },
            None => {},
        }
        Ok(None)
    }

    /// The second step of installing `epoch`, given the run's stored generation: a run
    /// that has gone is abandoned history and rejects the epoch; a different generation
    /// fences the caller out and hands the epoch back unchanged; a range ending beyond the
    /// caller's position rejects it; otherwise it is installed.
    pub fn install_decision(epoch: &CompactionEpoch, fence: &CompactionFence, stored_generation: Option<i64>) -> (r: InstallOutcome)
        ensures
            stored_generation is None ==> (r matches InstallOutcome::Rejected { epoch: e2, refusal } && (e2 == (CompactionEpoch {
                status: EpochStatus::RejectedStale,
                ..*epoch
            }) && (refusal matches CompactionError::StaleRun { epoch_id, epoch_run, fence_run } && epoch_id == epoch.id
                && fence_run == fence.run_id && epoch_run@ == optional_text(epoch.run_id)))),
            stored_generation matches Some(stored) && stored != fence.generation ==> (r matches InstallOutcome::Rejected {
                epoch: e2,
                refusal,
            } && e2 == *epoch && refusal == (CompactionError::StaleGeneration {
                run_id: fence.run_id,
                stored: stored_generation->0,
                held: fence.generation,
            })),
            stored_generation == Some(fence.generation) && epoch.source_to_sequence > fence.position ==> (r matches InstallOutcome::Rejected {
                epoch: e2,
                refusal,
            } && e2 == (CompactionEpoch { status: EpochStatus::RejectedStale, ..*epoch }) && refusal == (CompactionError::StalePosition {
                epoch_id: epoch.id,
                covers: epoch.source_to_sequence,
                position: fence.position,
            })),
            stored_generation == Some(fence.generation) && epoch.source_to_sequence <= fence.position ==> r == InstallOutcome::Installed(
                CompactionEpoch { status: EpochStatus::Installed, ..*epoch },
            ),
    {
        match stored_generation {
            None => {
                let epoch_run = match &epoch.run_id {
                    Some(x) => x.clone(),
                    None => owned(""),
                };
                proof {
                    reveal_strlit("");
                    assert(""@ =~= Seq::<char>::empty());
                }
                InstallOutcome::Rejected {
                    epoch: epoch.with_status(EpochStatus::RejectedStale),
                    refusal: CompactionError::StaleRun {
                        epoch_id: epoch.id.clone(),
                        epoch_run,
                        fence_run: fence.run_id.clone(),
                    },
                }
            },
            Some(stored) => {
                if stored != fence.generation {
                    InstallOutcome::Rejected {
                        epoch: epoch.with_status(epoch.status),
                        refusal: CompactionError::StaleGeneration {
                            run_id: fence.run_id.clone(),
                            stored,
                            held: fence.generation,
                        },
                    }
                } else if !epoch.covers_position(fence.position) {
                    InstallOutcome::Rejected {
                        epoch: epoch.with_status(EpochStatus::RejectedStale),
                        refusal: CompactionError::StalePosition {
                            epoch_id: epoch.id.clone(),
                            covers: epoch.source_to_sequence,
                            position: fence.position,
                        },
                    }
                } else {
                    InstallOutcome::Installed(epoch.with_status(EpochStatus::Installed))
                }
            },
        }
    }
}

} // verus!
