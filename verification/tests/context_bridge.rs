use quansio_server::policy::escalation::TrustLevel;
use quansio_server::runtime::context_bridge::{
    validate_projection, ContextBridgeError, ProjectionRequest, ProjectionSegment, ReceivedProjection,
    UnavailableContextBridge, ValidatedProjection, RPC_BOUNDARY_OWNER,
};

fn projection(segments: Vec<ProjectionSegment>) -> ReceivedProjection {
    ReceivedProjection {
        projection_id: "ctx_01J8Z3K6F1N8VQ2X5W9Y0TEST".to_string(),
        snapshot_id: "snap_1".to_string(),
        segments,
        tokens_used: 10,
        degraded: false,
    }
}

fn segment(id: &str, trust: &str) -> ProjectionSegment {
    ProjectionSegment {
        segment_id: id.to_string(),
        source: "artifact://plan".to_string(),
        trust_level: trust.to_string(),
        tokens: 5,
    }
}

/// The trust level a segment label names in the source-trust vocabulary.
fn source_trust(label: &str) -> Option<TrustLevel> {
    match label {
        "trusted_system" => Some(TrustLevel::TrustedSystem),
        "trusted_user" => Some(TrustLevel::TrustedUser),
        "verified_knowledge" => Some(TrustLevel::VerifiedKnowledge),
        "agent_generated" => Some(TrustLevel::AgentGenerated),
        "untrusted_external" => Some(TrustLevel::UntrustedExternal),
        _ => None,
    }
}

/// Label each segment by its source-trust name, then validate.
fn validate(received: ReceivedProjection, current: Option<&str>) -> Result<ValidatedProjection, ContextBridgeError> {
    let labels = received.segments.iter().map(|s| source_trust(&s.trust_level)).collect();
    validate_projection(received, current, labels)
}

#[test]
fn a_well_formed_projection_is_accepted_with_parsed_labels() {
    let validated = validate(
        projection(vec![segment("seg_1", "trusted_system"), segment("seg_2", "untrusted_external")]),
        Some("snap_1"),
    )
    .expect("valid");
    assert_eq!(validated.segments.len(), 2);
    assert_eq!(validated.segments[0].1, TrustLevel::TrustedSystem);
    assert_eq!(
        validated.weakest_trust(),
        Some(TrustLevel::UntrustedExternal),
        "the weakest label is what a policy escalates from"
    );
    assert!(!validated.degraded);
}

#[test]
fn an_unlabelled_segment_is_refused() {
    let error = validate(projection(vec![segment("seg_1", "")]), None)
        .expect_err("a segment with no trust level must be refused");
    assert_eq!(error.code(), "VALIDATION_SCHEMA");
    assert!(matches!(
        error,
        ContextBridgeError::UnlabelledSegment { ref segment_id } if segment_id == "seg_1"
    ));
}

#[test]
fn an_unknown_trust_level_is_refused() {
    for label in ["trusted_vibes", "TRUSTED_SYSTEM", "unspecified"] {
        let error = validate(projection(vec![segment("seg_1", label)]), None).expect_err("an unknown label must be refused");
        assert_eq!(error.code(), "VALIDATION_SCHEMA");
        assert!(matches!(error, ContextBridgeError::UnknownTrustLevel { .. }), "{label}");
    }
}

#[test]
fn a_projection_without_identity_or_snapshot_is_refused() {
    let mut no_id = projection(vec![segment("seg_1", "trusted_user")]);
    no_id.projection_id = "  ".to_string();
    assert!(matches!(validate(no_id, None), Err(ContextBridgeError::MalformedProjection { .. })));
    let mut no_snapshot = projection(vec![segment("seg_1", "trusted_user")]);
    no_snapshot.snapshot_id = String::new();
    assert!(matches!(validate(no_snapshot, None), Err(ContextBridgeError::MalformedProjection { .. })));
}

#[test]
fn a_stale_snapshot_is_refused() {
    let error = validate(projection(vec![segment("seg_1", "trusted_user")]), Some("snap_2"))
        .expect_err("a projection from an older snapshot must be refused");
    assert_eq!(error.code(), "CONFLICT_STATE");
    assert!(matches!(
        error,
        ContextBridgeError::StaleSnapshot { ref built, ref current }
            if built == "snap_1" && current == "snap_2"
    ));
}

#[test]
fn the_default_port_fails_closed() {
    let port = UnavailableContextBridge;
    let error = port
        .project(ProjectionRequest {
            run_id: "run_1".to_string(),
            workspace_id: "ws_1".to_string(),
            program_json: "{}".to_string(),
            snapshot_id: "snap_1".to_string(),
            token_budget: 100,
        })
        .expect_err("unwired");
    assert_eq!(error.code(), "INTERNAL");
    assert!(matches!(error, ContextBridgeError::Unavailable { owner, .. } if owner == RPC_BOUNDARY_OWNER));
}

#[test]
fn a_projection_without_segments_has_no_weakest_trust() {
    let validated = validate(projection(Vec::new()), None).expect("valid");
    assert_eq!(validated.weakest_trust(), None);
}
