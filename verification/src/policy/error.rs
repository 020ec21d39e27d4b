//! Typed policy, RBAC, privacy, sequence-guard and approval failures.
//!
//! Every failure variant is a failure: none of them means "proceed". Missing or
//! ambiguous security input is reported here so the caller denies rather than allows.

use vstd::prelude::*;

verus! {

/// Why an approval receipt could not authorize a dispatch.
#[derive(Debug, Clone, PartialEq, Eq)]
pub enum ApprovalFailure {
    /// No server signing key is configured, so no signature can be trusted.
    SignatureKeyMissing,
    /// The receipt's signature does not verify against the server key: tampered.
    SignatureInvalid,
    /// The receipt names a different effect record than the dispatch.
    EffectMismatch {
        /// Effect the dispatch is for.
        expected: String,
        /// Effect the receipt is bound to.
        receipt: String,
    },
    /// The dispatch parameters differ from the parameters the receipt was granted for.
    ParamsChanged {
        /// Digest the dispatch carries.
        expected: String,
        /// Digest the receipt is bound to.
        receipt: String,
    },
    /// The dispatch generation differs from the generation the receipt was granted for.
    GenerationStale {
        /// Generation the dispatch carries.
        expected: u64,
        /// Generation the receipt is bound to.
        receipt: u64,
    },
    /// The receipt is past its expiry.
    Expired,
    /// The receipt is single-use and has already authorized a dispatch.
    AlreadyUsed,
    /// The request is not in the `granted` state.
    RequestNotGranted {
        /// Status the request held.
        status: String,
    },
}

/// The public error code an approval failure maps to.
pub open spec fn approval_failure_code(f: ApprovalFailure) -> Seq<char> {
    match f {
        ApprovalFailure::Expired => "APPROVAL_EXPIRED"@,
        _ => "APPROVAL_INVALID"@,
    }
}

/// The canonical reason string of an approval failure.
pub open spec fn approval_failure_name(f: ApprovalFailure) -> Seq<char> {
    match f {
        ApprovalFailure::SignatureKeyMissing => "signature_key_missing"@,
        ApprovalFailure::SignatureInvalid => "signature_invalid"@,
        ApprovalFailure::EffectMismatch { .. } => "effect_mismatch"@,
        ApprovalFailure::ParamsChanged { .. } => "params_changed"@,
        ApprovalFailure::GenerationStale { .. } => "generation_stale"@,
        ApprovalFailure::Expired => "expired"@,
        ApprovalFailure::AlreadyUsed => "already_used"@,
        ApprovalFailure::RequestNotGranted { .. } => "request_not_granted"@,
    }
}

impl ApprovalFailure {
    /// The public error code this failure maps to.
    pub fn code(&self) -> (s: &'static str)
        ensures
            s@ == approval_failure_code(*self),
    {
        match self {
            ApprovalFailure::Expired => "APPROVAL_EXPIRED",
            _ => "APPROVAL_INVALID",
        }
    }

    /// The canonical reason string recorded on the decision row.
    pub fn as_str(&self) -> (s: &'static str)
        ensures
            s@ == approval_failure_name(*self),
    {
        match self {
            ApprovalFailure::SignatureKeyMissing => "signature_key_missing",
            ApprovalFailure::SignatureInvalid => "signature_invalid",
            ApprovalFailure::EffectMismatch { .. } => "effect_mismatch",
            ApprovalFailure::ParamsChanged { .. } => "params_changed",
            ApprovalFailure::GenerationStale { .. } => "generation_stale",
            ApprovalFailure::Expired => "expired",
            ApprovalFailure::AlreadyUsed => "already_used",
            ApprovalFailure::RequestNotGranted { .. } => "request_not_granted",
        }
    }
}

/// A policy-module failure.
///
/// Failures raised by storage, the event log, tenant schema setup, identity parsing,
/// capability input or JSON decoding carry their message.
#[derive(Debug, Clone, PartialEq, Eq)]
pub enum PolicyError {
    /// PostgreSQL rejected a statement or the transaction could not complete.
    Database(String),
    /// The runtime event store rejected the commit; nothing was written.
    Event(String),
    /// The tenant context could not be established.
    Schema(String),
    /// A canonical identity could not be parsed or generated.
    Core(String),
    /// A capability effect class or resource selector was not canonical.
    Capability(String),
    /// A JSON value could not be decoded.
    Json(String),
    /// A persisted policy rule is not canonical; the policy is unusable and fails closed.
    MalformedRule {
        /// Policy the rule belongs to.
        policy_id: String,
        /// Why the rule could not be parsed.
        reason: String,
    },
    /// A user rule attempts `always` on a tier-4 effect class.
    TierFourAlwaysRejected {
        /// Rule that was rejected.
        rule_id: String,
        /// Tier-4 effect class it named.
        effect_class: String,
    },
    /// A user rule attempts `always` where policy does not permit it.
    UserRuleWideningNotPermitted {
        /// Rule that was rejected.
        rule_id: String,
        /// Effect class it named.
        effect_class: String,
    },
    /// The approved request or receipt does not exist in this tenant.
    ApprovalNotFound {
        /// Request or receipt id.
        id: String,
        /// Tenant that was searched.
        tenant_id: String,
    },
    /// The effect record a receipt authorizes does not exist in this tenant.
    EffectNotFound {
        /// Effect record id.
        effect_id: String,
        /// Tenant that was searched.
        tenant_id: String,
    },
    /// A receipt failed verification; nothing was written.
    ApprovalInvalid(ApprovalFailure),
    /// The request is no longer pending (granted, denied, expired or superseded).
    ApprovalNotPending {
        /// Request id.
        request_id: String,
        /// Status it holds.
        status: String,
    },
    /// A run is not in the state the operation requires.
    RunStateConflict {
        /// Run id.
        run_id: String,
        /// State it held.
        status: String,
        /// State the operation required.
        expected: String,
    },
    /// A caller-supplied argument is not valid.
    InvalidArgument(String),
    /// The canonical runtime refused a transition; nothing was written.
    RuntimeConflict(String),
}

/// The public error code a policy error maps to.
pub open spec fn policy_error_code(e: PolicyError) -> Seq<char> {
    match e {
        PolicyError::ApprovalInvalid(f) => approval_failure_code(f),
        PolicyError::ApprovalNotPending { .. } => "APPROVAL_SUPERSEDED"@,
        PolicyError::TierFourAlwaysRejected { .. } => "POLICY_DENIED"@,
        PolicyError::UserRuleWideningNotPermitted { .. } => "POLICY_DENIED"@,
        PolicyError::MalformedRule { .. } => "VALIDATION_SCHEMA"@,
        PolicyError::InvalidArgument(_) => "VALIDATION_SCHEMA"@,
        PolicyError::Json(_) => "VALIDATION_SCHEMA"@,
        PolicyError::Capability(_) => "VALIDATION_SCHEMA"@,
        PolicyError::RunStateConflict { .. } => "CONFLICT_STATE"@,
        PolicyError::RuntimeConflict(_) => "CONFLICT_STATE"@,
        PolicyError::ApprovalNotFound { .. } => "NOT_FOUND"@,
        PolicyError::EffectNotFound { .. } => "NOT_FOUND"@,
        PolicyError::Database(_) => "INTERNAL"@,
        PolicyError::Event(_) => "INTERNAL"@,
        PolicyError::Schema(_) => "INTERNAL"@,
        PolicyError::Core(_) => "INTERNAL"@,
    }
}

impl PolicyError {
    /// The public error code this error maps to.
    pub fn code(&self) -> (s: &'static str)
        ensures
            s@ == policy_error_code(*self),
    {
        match self {
            PolicyError::ApprovalInvalid(failure) => failure.code(),
            PolicyError::ApprovalNotPending { .. } => "APPROVAL_SUPERSEDED",
            PolicyError::TierFourAlwaysRejected { .. } => "POLICY_DENIED",
            PolicyError::UserRuleWideningNotPermitted { .. } => "POLICY_DENIED",
            PolicyError::MalformedRule { .. } => "VALIDATION_SCHEMA",
            PolicyError::InvalidArgument(_) => "VALIDATION_SCHEMA",
            PolicyError::Json(_) => "VALIDATION_SCHEMA",
            PolicyError::Capability(_) => "VALIDATION_SCHEMA",
            PolicyError::RunStateConflict { .. } => "CONFLICT_STATE",
            PolicyError::RuntimeConflict(_) => "CONFLICT_STATE",
            PolicyError::ApprovalNotFound { .. } => "NOT_FOUND",
            PolicyError::EffectNotFound { .. } => "NOT_FOUND",
            PolicyError::Database(_) => "INTERNAL",
            PolicyError::Event(_) => "INTERNAL",
            PolicyError::Schema(_) => "INTERNAL",
            PolicyError::Core(_) => "INTERNAL",
        }
    }
}

} // verus!
