use quansio_server::runtime::checkpoints::{Checkpoint, CheckpointError, CheckpointKind, CheckpointStore};
use quansio_server::runtime::compaction::{
    status_from_column, CompactionEpoch, CompactionError, CompactionFence, CompactionStore, EpochStatus, InstallOutcome,
    NewEpoch,
};

fn epoch(run_id: Option<&str>, to: i64, status: EpochStatus) -> CompactionEpoch {
    CompactionEpoch {
        id: "cep_1".to_string(),
        thread_id: "ath_1".to_string(),
        run_id: run_id.map(str::to_string),
        seq: 1,
        source_from_sequence: 1,
        source_to_sequence: to,
        summary_artifact_id: Some("art_1".to_string()),
        token_estimate: 120,
        status,
        created_by_model_route_id: None,
    }
}

fn fence(run_id: &str, generation: i64, position: i64) -> CompactionFence {
    CompactionFence { run_id: run_id.to_string(), generation, position }
}

#[test]
fn epoch_statuses_round_trip_through_their_column() {
    for status in [EpochStatus::Pending, EpochStatus::Installed, EpochStatus::RejectedStale] {
        assert_eq!(status_from_column(status.as_str().to_string()), Ok(status));
    }
    assert_eq!(status_from_column("done".to_string()), Err(CompactionError::UnknownStatus("done".to_string())));
}

#[test]
fn a_reversed_range_is_refused() {
    let mut new = NewEpoch {
        id: "cep_1".to_string(),
        thread_id: "ath_1".to_string(),
        run_id: None,
        seq: 1,
        source_from_sequence: 5,
        source_to_sequence: 4,
        summary_artifact_id: None,
        token_estimate: 0,
        created_by_model_route_id: None,
    };
    assert_eq!(CompactionStore::check_range(&new), Err(CompactionError::RangeInvalid { from: 5, to: 4 }));
    new.source_to_sequence = 5;
    assert!(CompactionStore::check_range(&new).is_ok());
}

#[test]
fn only_a_pending_epoch_of_the_callers_run_may_be_installed() {
    let installed = epoch(Some("run_1"), 10, EpochStatus::Installed);
    assert!(matches!(
        CompactionStore::install_precheck(&installed, &fence("run_1", 1, 10)),
        Err(CompactionError::NotPending { .. })
    ));
    let forked = epoch(Some("run_old"), 10, EpochStatus::Pending);
    match CompactionStore::install_precheck(&forked, &fence("run_1", 1, 10)) {
        Ok(Some(InstallOutcome::Rejected { epoch, refusal })) => {
            assert_eq!(epoch.status, EpochStatus::RejectedStale);
            assert!(matches!(refusal, CompactionError::StaleRun { .. }));
        },
        other => panic!("expected a stale-run rejection, got {other:?}"),
    }
    let ours = epoch(Some("run_1"), 10, EpochStatus::Pending);
    assert!(matches!(CompactionStore::install_precheck(&ours, &fence("run_1", 1, 10)), Ok(None)));
}

#[test]
fn installation_is_fenced_by_generation_and_position() {
    let pending = epoch(Some("run_1"), 10, EpochStatus::Pending);
    match CompactionStore::install_decision(&pending, &fence("run_1", 2, 10), Some(2)) {
        InstallOutcome::Installed(e) => assert_eq!(e.status, EpochStatus::Installed),
        other => panic!("expected installation, got {other:?}"),
    }
    match CompactionStore::install_decision(&pending, &fence("run_1", 2, 10), Some(3)) {
        InstallOutcome::Rejected { epoch, refusal } => {
            assert_eq!(epoch, pending, "a fenced-out caller writes no decision");
            assert_eq!(refusal, CompactionError::StaleGeneration { run_id: "run_1".to_string(), stored: 3, held: 2 });
        },
        other => panic!("expected a stale generation, got {other:?}"),
    }
    match CompactionStore::install_decision(&pending, &fence("run_1", 2, 9), Some(2)) {
        InstallOutcome::Rejected { epoch, refusal } => {
            assert_eq!(epoch.status, EpochStatus::RejectedStale);
            assert!(matches!(refusal, CompactionError::StalePosition { covers: 10, position: 9, .. }));
        },
        other => panic!("expected a stale position, got {other:?}"),
    }
    match CompactionStore::install_decision(&pending, &fence("run_1", 2, 10), None) {
        InstallOutcome::Rejected { refusal, .. } => assert!(matches!(refusal, CompactionError::StaleRun { .. })),
        other => panic!("expected a stale run, got {other:?}"),
    }
    assert!(pending.covers_position(10));
    assert!(!pending.covers_position(9));
}

fn checkpoint(generation: i64, expires_at: Option<&str>) -> Checkpoint {
    Checkpoint {
        id: "ckp_1".to_string(),
        execution_target_id: "et_1".to_string(),
        run_id: Some("run_1".to_string()),
        kind: CheckpointKind::WorkspaceFiles,
        storage_ref: "s3://bucket/ckp_1".to_string(),
        generation,
        size_bytes: 2048,
        restore_policy: None,
        expires_at: expires_at.map(str::to_string),
    }
}

#[test]
fn a_checkpoint_restores_only_for_a_current_holder_before_expiry() {
    let now = "2026-09-12T10:00:00Z";
    let fresh = checkpoint(2, Some("2026-09-13T10:00:00Z"));
    assert_eq!(CheckpointStore::restore_check(fresh.clone(), 2, now), Ok(fresh.clone()));
    assert_eq!(CheckpointStore::restore_check(fresh.clone(), 3, now), Ok(fresh));
    assert_eq!(
        CheckpointStore::restore_check(checkpoint(4, None), 3, now),
        Err(CheckpointError::StaleGeneration { id: "ckp_1".to_string(), checkpoint_generation: 4, current: 3 })
    );
    assert_eq!(
        CheckpointStore::restore_check(checkpoint(1, Some("2026-09-11T10:00:00Z")), 3, now),
        Err(CheckpointError::Expired("ckp_1".to_string()))
    );
}

#[test]
fn checkpoint_kinds_round_trip_through_their_column() {
    for kind in [
        CheckpointKind::WorkspaceFiles,
        CheckpointKind::BrowserSession,
        CheckpointKind::Terminal,
        CheckpointKind::Full,
    ] {
        assert_eq!(CheckpointStore::kind_from_column(kind.as_str().to_string()), Ok(kind));
    }
    assert_eq!(
        CheckpointStore::kind_from_column("disk".to_string()),
        Err(CheckpointError::UnknownKind("disk".to_string()))
    );
}
