use quansio_server::policy::approval::UntrustedOrigin;
use quansio_server::policy::escalation::TrustLevel;
use quansio_server::crypto::Digest;
use quansio_server::policy::approval::{
    ApprovalReceipt, ApprovalRequestStatus, ApprovalSigner, DispatchBinding, ReceiptScope,
};
use quansio_server::policy::error::{ApprovalFailure, PolicyError};
use quansio_server::policy::lifecycle::{
    consume_check, due_for_expiry, grant_check, issue_receipt, supersede_target, transition_check, EffectRow,
    RequestRow,
};
use quansio_server::time::Timestamp;

const NOW: i64 = 1_789_171_200;

fn at(secs: i64) -> Timestamp {
    Timestamp::new(secs, 0).expect("timestamp")
}

fn row(status: &str, expires: i64) -> RequestRow {
    RequestRow { status: status.to_string(), expires_at: at(expires) }
}

fn signer() -> ApprovalSigner {
    ApprovalSigner::new(b"server-key".to_vec()).expect("signer")
}

fn receipt(signer: &ApprovalSigner) -> ApprovalReceipt {
    issue_receipt(
        signer,
        "arc_1",
        "apr_1",
        "eff_1",
        "usr_1",
        Digest::of(b"params"),
        4,
        at(NOW),
        at(NOW + 600),
    )
}

fn open_effect() -> EffectRow {
    EffectRow {
        workspace_id: "ws_1".to_string(),
        status: "PROPOSED".to_string(),
        params_digest: Digest::of(b"params").as_str().to_string(),
        generation: 4,
        approval_receipt_id: None,
        receipts_bound_elsewhere: 0,
    }
}

fn binding() -> DispatchBinding {
    DispatchBinding { effect_id: "eff_1".to_string(), params_digest: Digest::of(b"params"), generation: 4 }
}

#[test]
fn only_a_live_requested_approval_can_be_granted() {
    assert_eq!(grant_check("apr_1", "ten_1", Some(&row("requested", NOW + 60)), at(NOW)), Ok(()));
    assert_eq!(
        grant_check("apr_1", "ten_1", None, at(NOW)),
        Err(PolicyError::ApprovalNotFound { id: "apr_1".to_string(), tenant_id: "ten_1".to_string() })
    );
    assert_eq!(
        grant_check("apr_1", "ten_1", Some(&row("denied", NOW + 60)), at(NOW)),
        Err(PolicyError::ApprovalNotPending { request_id: "apr_1".to_string(), status: "denied".to_string() })
    );
    assert_eq!(
        grant_check("apr_1", "ten_1", Some(&row("requested", NOW)), at(NOW)),
        Err(PolicyError::ApprovalNotPending { request_id: "apr_1".to_string(), status: "expired".to_string() })
    );
}

#[test]
fn an_issued_receipt_is_signed_single_use_and_verifies() {
    let signer = signer();
    let issued = receipt(&signer);
    assert_eq!(issued.scope, ReceiptScope::SingleUse);
    assert_eq!(issued.generation, 4);
    assert_eq!(issued.expires_at, at(NOW + 600));
    assert!(!issued.signature.is_empty());
    assert_eq!(signer.verify(&issued), Ok(()));
}

#[test]
fn a_changed_digest_supersedes_the_pending_request() {
    let digest = Digest::of(b"new params");
    assert_eq!(
        supersede_target(Some(("apr_1".to_string(), Digest::of(b"old").as_str().to_string())), &digest),
        Some("apr_1".to_string())
    );
    assert_eq!(supersede_target(Some(("apr_1".to_string(), digest.as_str().to_string())), &digest), None);
    assert_eq!(supersede_target(None, &digest), None);
}

#[test]
fn terminal_transitions_leave_only_requested_approvals() {
    assert_eq!(
        transition_check("apr_1", "ten_1", ApprovalRequestStatus::Denied, Some("requested")),
        Ok("approval.denied")
    );
    assert_eq!(
        transition_check("apr_1", "ten_1", ApprovalRequestStatus::Expired, Some("requested")),
        Ok("approval.expired")
    );
    assert_eq!(
        transition_check("apr_1", "ten_1", ApprovalRequestStatus::Superseded, Some("granted")),
        Err(PolicyError::ApprovalNotPending { request_id: "apr_1".to_string(), status: "granted".to_string() })
    );
    assert_eq!(
        transition_check("apr_1", "ten_1", ApprovalRequestStatus::Granted, Some("requested")),
        Err(PolicyError::InvalidArgument("only denied, expired and superseded are handled here".to_string()))
    );
    assert!(matches!(
        transition_check("apr_1", "ten_1", ApprovalRequestStatus::Denied, None),
        Err(PolicyError::ApprovalNotFound { .. })
    ));
}

#[test]
fn expiry_sweeps_only_past_due_requested_approvals_in_order() {
    let requests = vec![
        ("apr_a".to_string(), row("requested", NOW - 1)),
        ("apr_b".to_string(), row("requested", NOW + 1)),
        ("apr_c".to_string(), row("granted", NOW - 1)),
        ("apr_d".to_string(), row("requested", NOW)),
    ];
    assert_eq!(due_for_expiry(&requests, at(NOW)), vec!["apr_a".to_string(), "apr_d".to_string()]);
    assert!(due_for_expiry(&Vec::new(), at(NOW)).is_empty());
}

#[test]
fn a_receipt_is_consumed_once_for_its_exact_effect() {
    let signer = signer();
    let issued = receipt(&signer);
    assert_eq!(
        consume_check(&signer, &issued, &binding(), at(NOW + 1), "ten_1", Some("granted"), Some(&open_effect())),
        Ok(())
    );
    let mut bound = open_effect();
    bound.approval_receipt_id = Some("arc_1".to_string());
    assert_eq!(
        consume_check(&signer, &issued, &binding(), at(NOW + 1), "ten_1", Some("granted"), Some(&bound)),
        Err(PolicyError::ApprovalInvalid(ApprovalFailure::AlreadyUsed))
    );
    let mut dispatched = open_effect();
    dispatched.status = "DISPATCHED".to_string();
    assert_eq!(
        consume_check(&signer, &issued, &binding(), at(NOW + 1), "ten_1", Some("granted"), Some(&dispatched)),
        Err(PolicyError::ApprovalInvalid(ApprovalFailure::AlreadyUsed))
    );
    let mut moved = open_effect();
    moved.generation = 5;
    assert_eq!(
        consume_check(&signer, &issued, &binding(), at(NOW + 1), "ten_1", Some("granted"), Some(&moved)),
        Err(PolicyError::ApprovalInvalid(ApprovalFailure::GenerationStale { expected: 5, receipt: 4 }))
    );
}

#[test]
fn consumption_reports_the_first_failed_check() {
    let signer = signer();
    let issued = receipt(&signer);
    assert_eq!(
        consume_check(&signer, &issued, &binding(), at(NOW + 600), "ten_1", Some("granted"), Some(&open_effect())),
        Err(PolicyError::ApprovalInvalid(ApprovalFailure::Expired))
    );
    assert!(matches!(
        consume_check(&signer, &issued, &binding(), at(NOW + 1), "ten_1", Some("requested"), Some(&open_effect())),
        Err(PolicyError::ApprovalInvalid(ApprovalFailure::RequestNotGranted { ref status })) if status == "requested"
    ));
    assert_eq!(
        consume_check(&signer, &issued, &binding(), at(NOW + 1), "ten_1", Some("granted"), None),
        Err(PolicyError::EffectNotFound { effect_id: "eff_1".to_string(), tenant_id: "ten_1".to_string() })
    );
    let other = DispatchBinding { effect_id: "eff_2".to_string(), ..binding() };
    assert!(matches!(
        consume_check(&signer, &issued, &other, at(NOW + 1), "ten_1", None, None),
        Err(PolicyError::ApprovalInvalid(ApprovalFailure::EffectMismatch { .. }))
    ));
    let forger = ApprovalSigner::new(b"other-key".to_vec()).expect("signer");
    assert_eq!(
        consume_check(&forger, &issued, &binding(), at(NOW + 1), "ten_1", Some("granted"), Some(&open_effect())),
        Err(PolicyError::ApprovalInvalid(ApprovalFailure::SignatureInvalid))
    );
}

#[test]
fn receipts_expire_at_their_deadline_and_only_requested_is_pending() {
    let issued = receipt(&signer());
    assert!(!issued.is_expired(at(NOW + 599)));
    assert!(issued.is_expired(at(NOW + 600)));
    assert!(ApprovalRequestStatus::Requested.is_pending());
    assert!(!ApprovalRequestStatus::Granted.is_pending());
    assert!(!ApprovalRequestStatus::Superseded.is_pending());
}

#[test]
fn an_untrusted_origin_is_always_untrusted_external() {
    let origin = UntrustedOrigin::new(vec!["seg_1".to_string()]);
    assert_eq!(origin.trust(), TrustLevel::UntrustedExternal);
    assert_eq!(origin.clone().trust(), TrustLevel::UntrustedExternal);
    assert_eq!(origin.source_refs, vec!["seg_1".to_string()]);
}
