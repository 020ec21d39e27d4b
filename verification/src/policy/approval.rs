//! Approval requests, consequence previews and server-signed receipts.
//!
//! An approval request is bound to one effect record and one `params_digest`; if the
//! effect's parameters change after the preview, the pending request is superseded and
//! a new request is required. An approval receipt is the only thing that can authorize a
//! tier ≥ 3 dispatch, and it is bound to request, effect, approver, `params_digest`,
//! generation, a single-use scope and an expiry.
//!
//! The receipt signature is an HMAC-SHA256 over those bound fields under a server-held
//! key. A client-supplied signature is never trusted: the verifier always recomputes
//! under the server key, and an absent key fails closed.

use vstd::prelude::*;
use crate::text::{str_eq, owned, u64_text, decimal_text};
use crate::time::{Timestamp, earlier, rfc3339, rfc3339_text};
use crate::crypto::{
    Digest, hex_decode, hex_decoded, hex_encode, hex_text, hmac_sha256, hmac_sha256_tag,
    hmac_sha256_verify, lemma_hex_round_trip,
};
use crate::policy::error::ApprovalFailure;
use crate::policy::escalation::TrustLevel;
use crate::policy::guards::DataClass;

verus! {

/// Name of the environment variable that carries the server-held approval signing key.
///
/// The key is configuration, never a client value and never a source constant; when it
/// is absent no receipt can be signed or verified, which fails closed.
pub const APPROVAL_SIGNING_KEY_ENV: &'static str = "QUANSIO_APPROVAL_SIGNING_KEY";

/// A monetary amount in the consequence preview.
#[derive(Debug, Clone, PartialEq, Eq, Hash)]
pub struct Amount {
    /// ISO 4217 currency code.
    pub currency: String,
    /// Amount in minor units (cents), never a float.
    pub minor_units: i64,
}

impl Amount {
    /// Build an amount.
    pub fn new(currency: &str, minor_units: i64) -> (r: Amount)
        ensures
            r.currency@ == currency@,
            r.minor_units == minor_units,
    {
        Amount { currency: owned(currency), minor_units }
    }
}

/// The trust level an untrusted origin records; it can only ever be untrusted external.
#[derive(Debug, Clone, Copy, PartialEq, Eq)]
struct UntrustedLevel {
    level: TrustLevel,
}

impl UntrustedLevel {
    /// Only the untrusted external level is representable.
    #[verifier::type_invariant]
    spec fn inv(self) -> bool {
        self.level == TrustLevel::UntrustedExternal
    }
}

/// The untrusted origin a preview must show when the proposal derives from external data.
#[derive(Debug, Clone, PartialEq, Eq)]
pub struct UntrustedOrigin {
    trust: UntrustedLevel,
    /// Context segments the derivation came from.
    pub source_refs: Vec<String>,
}

impl View for UntrustedOrigin {
    type V = Seq<String>;

    closed spec fn view(&self) -> Seq<String> {
        self.source_refs@
    }
}

impl UntrustedOrigin {
    /// Build an untrusted origin from the referenced context segments; its level is
    /// always untrusted external, and no other level can be put here.
    pub fn new(source_refs: Vec<String>) -> (r: UntrustedOrigin)
        ensures
            r@ == source_refs@,
    {
        UntrustedOrigin { trust: UntrustedLevel { level: TrustLevel::UntrustedExternal }, source_refs }
    }

    /// The trust level: untrusted external, for every origin.
    pub fn trust(&self) -> (r: TrustLevel)
        ensures
            r == TrustLevel::UntrustedExternal,
    {
        proof {
            use_type_invariant(&self.trust);
        }
        self.trust.level
    }
}

/// The typed consequence preview shown before an effect is approved.
#[derive(Debug, Clone, PartialEq, Eq)]
pub struct ConsequencePreview {
    /// Who would receive the effect (addresses, channel ids, role names).
    pub recipients: Vec<String>,
    /// Amounts the effect would move.
    pub amounts: Vec<Amount>,
    /// Targets (execution targets, resources, records) the effect would touch.
    pub targets: Vec<String>,
    /// Data classes the effect would move.
    pub data_classes: Vec<DataClass>,
    /// The untrusted origin, present if and only if the proposal is escalated.
    pub untrusted_origin: Option<UntrustedOrigin>,
}

impl ConsequencePreview {
    /// Build a preview.
    pub fn new(
        recipients: Vec<String>,
        amounts: Vec<Amount>,
        targets: Vec<String>,
        data_classes: Vec<DataClass>,
        untrusted_origin: Option<UntrustedOrigin>,
    ) -> (r: ConsequencePreview)
        ensures
            r.recipients@ == recipients@,
            r.amounts@ == amounts@,
            r.targets@ == targets@,
            r.data_classes@ == data_classes@,
            r.untrusted_origin == untrusted_origin,
    {
        ConsequencePreview { recipients, amounts, targets, data_classes, untrusted_origin }
    }

    /// Whether the preview shows an untrusted origin.
    pub fn shows_untrusted_origin(&self) -> (r: bool)
        ensures
            r == self.untrusted_origin is Some,
    {
        self.untrusted_origin.is_some()
    }
}

impl Default for ConsequencePreview {
    /// An empty preview: no recipients, amounts, targets, classes or untrusted origin.
    fn default() -> (r: ConsequencePreview)
        ensures
            r.recipients@.len() == 0,
            r.amounts@.len() == 0,
            r.targets@.len() == 0,
            r.data_classes@.len() == 0,
            r.untrusted_origin is None,
    {
        ConsequencePreview {
            recipients: Vec::new(),
            amounts: Vec::new(),
            targets: Vec::new(),
            data_classes: Vec::new(),
            untrusted_origin: None,
        }
    }
}

/// Who a request was asked of.
#[derive(Debug, Clone, PartialEq, Eq, Hash)]
pub enum RequestedOf {
    /// A specific user.
    User(String),
    /// Every holder of a workspace role.
    Role(String),
}

/// The lifecycle status of an approval request.
#[derive(Debug, Clone, Copy, PartialEq, Eq, Hash, Structural)]
pub enum ApprovalRequestStatus {
    /// Awaiting a decision.
    Requested,
    /// A receipt was issued.
    Granted,
    /// A human refused.
    Denied,
    /// The request passed its expiry without a decision.
    Expired,
    /// The effect parameters changed, so this request can no longer authorize it.
    Superseded,
}

/// The lowercase wire name of a request status.
pub open spec fn request_status_name(s: ApprovalRequestStatus) -> Seq<char> {
    match s {
        ApprovalRequestStatus::Requested => "requested"@,
        ApprovalRequestStatus::Granted => "granted"@,
        ApprovalRequestStatus::Denied => "denied"@,
        ApprovalRequestStatus::Expired => "expired"@,
        ApprovalRequestStatus::Superseded => "superseded"@,
    }
}

impl ApprovalRequestStatus {
    /// The canonical wire name.
    pub fn as_str(self) -> (s: &'static str)
        ensures
            s@ == request_status_name(self),
    {
        match self {
            ApprovalRequestStatus::Requested => "requested",
            ApprovalRequestStatus::Granted => "granted",
            ApprovalRequestStatus::Denied => "denied",
            ApprovalRequestStatus::Expired => "expired",
            ApprovalRequestStatus::Superseded => "superseded",
        }
    }

    /// Parse a canonical status; the rejected value is returned on failure.
    pub fn parse(value: &str) -> (r: Result<ApprovalRequestStatus, String>)
        ensures
            r matches Ok(s) ==> request_status_name(s) == value@,
            r is Err ==> forall|s: ApprovalRequestStatus| request_status_name(s) != value@,
            r matches Err(v) ==> v@ == value@,
    {
        if str_eq(value, "requested") {
            Ok(ApprovalRequestStatus::Requested)
        } else if str_eq(value, "granted") {
            Ok(ApprovalRequestStatus::Granted)
        } else if str_eq(value, "denied") {
            Ok(ApprovalRequestStatus::Denied)
        } else if str_eq(value, "expired") {
            Ok(ApprovalRequestStatus::Expired)
        } else if str_eq(value, "superseded") {
            Ok(ApprovalRequestStatus::Superseded)
        } else {
            proof {
                assert forall|s: ApprovalRequestStatus| request_status_name(s) != value@ by {
                    match s {
                        ApprovalRequestStatus::Requested => {},
                        ApprovalRequestStatus::Granted => {},
                        ApprovalRequestStatus::Denied => {},
                        ApprovalRequestStatus::Expired => {},
                        ApprovalRequestStatus::Superseded => {},
                    }
                }
            }
            Err(owned(value))
        }
    }

    /// Whether the request is still awaiting a decision.
    pub fn is_pending(self) -> (r: bool)
        ensures
            r == (self == ApprovalRequestStatus::Requested),
    {
        match self {
            ApprovalRequestStatus::Requested => true,
            _ => false,
        }
    }
}

/// Every status name parses back to its status.
pub proof fn law_request_status_round_trips(s: ApprovalRequestStatus, t: ApprovalRequestStatus)
    ensures
        request_status_name(s) == request_status_name(t) ==> s == t,
{
    reveal_strlit("requested");
    reveal_strlit("granted");
    reveal_strlit("denied");
    reveal_strlit("expired");
    reveal_strlit("superseded");
    if request_status_name(s) == request_status_name(t) && s != t {
        let a = request_status_name(s);
        let b = request_status_name(t);
        assert(a.len() != b.len() || a[0] != b[0] || a[1] != b[1]);
    }
}

/// A request to approve one effect.
#[derive(Debug, Clone, PartialEq, Eq)]
pub struct NewApprovalRequest {
    /// Run the effect belongs to.
    pub run_id: String,
    /// Owning workspace.
    pub workspace_id: String,
    /// Effect record the request authorizes.
    pub effect_id: String,
    /// Who the request is asked of.
    pub requested_of: Vec<RequestedOf>,
    /// Human-readable summary.
    pub summary: String,
    /// The typed consequence preview.
    pub consequence_preview: ConsequencePreview,
    /// Digest of the exact effect parameters.
    pub params_digest: Digest,
    /// Capability projection the effect was authorized against.
    pub capability_projection_id: String,
    /// When the request expires.
    pub expires_at: Timestamp,
}

impl NewApprovalRequest {
    /// Build a request.
    pub fn new(
        run_id: &str,
        workspace_id: &str,
        effect_id: &str,
        requested_of: Vec<RequestedOf>,
        summary: &str,
        consequence_preview: ConsequencePreview,
        params_digest: Digest,
        capability_projection_id: &str,
        expires_at: Timestamp,
    ) -> (r: NewApprovalRequest)
        ensures
            r.run_id@ == run_id@,
            r.workspace_id@ == workspace_id@,
            r.effect_id@ == effect_id@,
            r.requested_of@ == requested_of@,
            r.summary@ == summary@,
            r.consequence_preview == consequence_preview,
            r.params_digest == params_digest,
            r.capability_projection_id@ == capability_projection_id@,
            r.expires_at == expires_at,
    {
        NewApprovalRequest {
            run_id: owned(run_id),
            workspace_id: owned(workspace_id),
            effect_id: owned(effect_id),
            requested_of,
            summary: owned(summary),
            consequence_preview,
            params_digest,
            capability_projection_id: owned(capability_projection_id),
            expires_at,
        }
    }
}

/// A persisted approval request row.
#[derive(Debug, Clone, PartialEq, Eq)]
pub struct ApprovalRequestRecord {
    /// The `apr_…` request id.
    pub id: String,
    /// Owning tenant.
    pub tenant_id: String,
    /// Owning workspace.
    pub workspace_id: String,
    /// Run the effect belongs to.
    pub run_id: String,
    /// Effect record the request authorizes.
    pub effect_id: String,
    /// Who the request is asked of.
    pub requested_of: Vec<RequestedOf>,
    /// Human-readable summary.
    pub summary: String,
    /// The typed consequence preview.
    pub consequence_preview: ConsequencePreview,
    /// Digest of the exact effect parameters at preview time.
    pub params_digest: Digest,
    /// Capability projection the effect was authorized against.
    pub capability_projection_id: String,
    /// Current status.
    pub status: ApprovalRequestStatus,
    /// When the request expires.
    pub expires_at: Timestamp,
}

/// Whether a request can still be granted at `now`: pending and not yet expired.
pub open spec fn grantable(status: ApprovalRequestStatus, expires_at: Timestamp, now: Timestamp) -> bool {
    status == ApprovalRequestStatus::Requested && earlier(now@, expires_at@)
}

impl ApprovalRequestRecord {
    /// Whether the request can still be granted at `now`.
    pub fn is_grantable(&self, now: Timestamp) -> (r: bool)
        ensures
            r == grantable(self.status, self.expires_at, now),
    {
        self.status.is_pending() && now.is_before(&self.expires_at)
    }

    /// Whether a changed parameter digest supersedes this pending request.
    pub fn is_superseded_by(&self, params_digest: &Digest) -> (r: bool)
        ensures
            r == (self.status == ApprovalRequestStatus::Requested && self.params_digest@ != params_digest@),
    {
        self.status.is_pending() && !self.params_digest.same(params_digest)
    }
}

/// The single-use scope of a receipt. Only one value exists.
#[derive(Debug, Clone, Copy, PartialEq, Eq, Hash, Structural)]
pub enum ReceiptScope {
    /// The receipt authorizes exactly one dispatch.
    SingleUse,
}

impl ReceiptScope {
    /// The canonical wire name.
    pub fn as_str(self) -> (s: &'static str)
        ensures
            s@ == "single_use"@,
    {
        "single_use"
    }
}

/// A server-signed approval receipt.
#[derive(Debug, Clone, PartialEq, Eq)]
pub struct ApprovalReceipt {
    /// The `rcp_…` receipt id.
    pub id: String,
    /// The `apr_…` request that produced it.
    pub request_id: String,
    /// The effect record it authorizes.
    pub effect_id: String,
    /// The user who approved.
    pub approver_user_id: String,
    /// Digest of the exact authorized parameters.
    pub params_digest: Digest,
    /// Scope; always single-use.
    pub scope: ReceiptScope,
    /// Controller generation the receipt was granted under.
    pub generation: u64,
    /// When it was granted.
    pub granted_at: Timestamp,
    /// When it expires.
    pub expires_at: Timestamp,
    /// Server HMAC over the bound fields, lowercase hex.
    pub signature: String,
}

/// The signed message: the scheme version and every bound field, one per line.
///
/// The signature covers exactly these values, so changing any bound field, or replaying
/// the signature onto a different receipt, invalidates verification.
pub open spec fn signing_text(r: ApprovalReceipt) -> Seq<char> {
    "v1"@ + "\n"@ + r.id@ + "\n"@ + r.request_id@ + "\n"@ + r.effect_id@ + "\n"@
        + r.approver_user_id@ + "\n"@ + r.params_digest@ + "\n"@ + "single_use"@ + "\n"@
        + decimal_text(r.generation as nat) + "\n"@ + rfc3339_text(r.granted_at@.0, r.granted_at@.1)
        + "\n"@ + rfc3339_text(r.expires_at@.0, r.expires_at@.1)
}

/// The tag of a receipt under `key`: HMAC-SHA256 over the UTF-8 signed message.
pub open spec fn receipt_tag(key: Seq<u8>, r: ApprovalReceipt) -> Seq<u8> {
    hmac_sha256_tag(key, vstd::utf8::encode_utf8(signing_text(r)))
}

/// Whether a receipt's signature is the hex tag of its bound fields under `key`.
pub open spec fn signature_valid(key: Seq<u8>, r: ApprovalReceipt) -> bool {
    hex_decoded(vstd::utf8::encode_utf8(r.signature@)) == Some(receipt_tag(key, r))
}

/// Whether the receipt is past its expiry at `now`.
pub open spec fn receipt_expired(r: ApprovalReceipt, now: Timestamp) -> bool {
    !earlier(now@, r.expires_at@)
}

impl ApprovalReceipt {
    /// The canonical signed message for the receipt's bound fields.
    pub fn signing_message(&self) -> (s: String)
        ensures
            s@ == signing_text(*self),
    {
        let mut s = owned("v1");
        s.append("\n");
        s.append(self.id.as_str());
        s.append("\n");
        s.append(self.request_id.as_str());
        s.append("\n");
        s.append(self.effect_id.as_str());
        s.append("\n");
        s.append(self.approver_user_id.as_str());
        s.append("\n");
        s.append(self.params_digest.as_str());
        s.append("\n");
        s.append(self.scope.as_str());
        s.append("\n");
        let generation = u64_text(self.generation);
        s.append(generation.as_str());
        s.append("\n");
        let granted = rfc3339(self.granted_at);
        s.append(granted.as_str());
        s.append("\n");
        let expires = rfc3339(self.expires_at);
        s.append(expires.as_str());
        s
    }

    /// Whether the receipt is past `expires_at`.
    pub fn is_expired(&self, now: Timestamp) -> (r: bool)
        ensures
            r == receipt_expired(*self, now),
    {
        !now.is_before(&self.expires_at)
    }
}

/// The server-held HMAC key used to sign approval receipts.
pub struct ApprovalSigner {
    key: Vec<u8>,
}

impl Clone for ApprovalSigner {
    /// A signer with the same key.
    fn clone(&self) -> (r: ApprovalSigner)
        ensures
            r@ == self@,
    {
        proof {
            use_type_invariant(self);
        }
        let mut key: Vec<u8> = Vec::new();
        let mut i: usize = 0;
        while i < self.key.len()
            invariant
                i <= self.key@.len(),
                key@ == self.key@.take(i as int),
            decreases self.key@.len() - i,
        {
            key.push(self.key[i]);
            proof {
                assert(self.key@.take(i + 1) =~= self.key@.take(i as int).push(self.key@[i as int]));
            }
            i = i + 1;
        }
        proof {
            assert(self.key@.take(self.key@.len() as int) =~= self.key@);
        }
        ApprovalSigner { key }
    }
}

impl View for ApprovalSigner {
    type V = Seq<u8>;

    closed spec fn view(&self) -> Seq<u8> {
        self.key@
    }
}

impl ApprovalSigner {
    /// A signer always holds a non-empty key.
    #[verifier::type_invariant]
    spec fn inv(&self) -> bool {
        self.key@.len() > 0
    }

    /// Build a signer from an explicit server key. An empty key is refused so an
    /// accidental empty configuration cannot sign.
    pub fn new(key: Vec<u8>) -> (r: Result<ApprovalSigner, ApprovalFailure>)
        ensures
            r is Ok <==> key@.len() > 0,
            r matches Ok(s) ==> s@ == key@,
            r matches Err(e) ==> e == ApprovalFailure::SignatureKeyMissing,
    {
        if key.len() == 0 {
            return Err(ApprovalFailure::SignatureKeyMissing);
        }
        Ok(ApprovalSigner { key })
    }

    /// The lowercase hex HMAC of the receipt's bound fields.
    pub fn sign(&self, receipt: &ApprovalReceipt) -> (r: Result<String, ApprovalFailure>)
        ensures
            r matches Ok(sig) && sig@ == hex_text(receipt_tag(self@, *receipt)),
    {
        let message = receipt.signing_message();
        let tag = hmac_sha256(self.key.as_slice(), message.as_str().as_bytes());
        Ok(hex_encode(tag.as_slice()))
    }

    /// Verify a receipt's signature against the server key in constant time; a
    /// signature that is not hex, or not the tag of the bound fields, is refused.
    pub fn verify(&self, receipt: &ApprovalReceipt) -> (r: Result<(), ApprovalFailure>)
        ensures
            r is Ok <==> signature_valid(self@, *receipt),
            r matches Err(e) ==> e == ApprovalFailure::SignatureInvalid,
    {
        let expected = match hex_decode(receipt.signature.as_str().as_bytes()) {
            Some(bytes) => bytes,
            None => return Err(ApprovalFailure::SignatureInvalid),
        };
        let message = receipt.signing_message();
        if hmac_sha256_verify(self.key.as_slice(), message.as_str().as_bytes(), expected.as_slice()) {
            Ok(())
        } else {
            Err(ApprovalFailure::SignatureInvalid)
        }
    }
}

/// A receipt carrying the signature `sign` produced for it verifies under the same key.
pub proof fn law_signed_receipt_verifies(key: Seq<u8>, r: ApprovalReceipt)
    requires
        r.signature@ == hex_text(receipt_tag(key, r)),
    ensures
        signature_valid(key, r),
{
    lemma_hex_round_trip(receipt_tag(key, r));
}

/// What a dispatch is asking the receipt to authorize.
#[derive(Debug, Clone, PartialEq, Eq)]
pub struct DispatchBinding {
    /// The effect record being dispatched.
    pub effect_id: String,
    /// The exact parameters of the dispatch.
    pub params_digest: Digest,
    /// The controller generation of the dispatch.
    pub generation: u64,
}

/// Verify a receipt against a dispatch binding. Every failure is typed and fails
/// closed; the caller must not dispatch on `Err`.
pub fn verify_receipt(
    signer: &ApprovalSigner,
    receipt: &ApprovalReceipt,
    binding: &DispatchBinding,
    now: Timestamp,
) -> (r: Result<(), ApprovalFailure>)
    ensures
        r is Ok <==> (signature_valid(signer@, *receipt) && receipt.effect_id@ == binding.effect_id@
            && receipt.params_digest@ == binding.params_digest@ && receipt.generation == binding.generation
            && !receipt_expired(*receipt, now)),
        !signature_valid(signer@, *receipt) ==> r == Err::<(), ApprovalFailure>(ApprovalFailure::SignatureInvalid),
        signature_valid(signer@, *receipt) && receipt.effect_id@ != binding.effect_id@ ==> (r matches Err(
            ApprovalFailure::EffectMismatch { expected, receipt: got },
        ) && expected@ == binding.effect_id@ && got@ == receipt.effect_id@),
        signature_valid(signer@, *receipt) && receipt.effect_id@ == binding.effect_id@
            && receipt.params_digest@ != binding.params_digest@ ==> (r matches Err(
            ApprovalFailure::ParamsChanged { expected, receipt: got },
        ) && expected@ == binding.params_digest@ && got@ == receipt.params_digest@),
        signature_valid(signer@, *receipt) && receipt.effect_id@ == binding.effect_id@
            && receipt.params_digest@ == binding.params_digest@ && receipt.generation != binding.generation
            ==> r == Err::<(), ApprovalFailure>(
            ApprovalFailure::GenerationStale { expected: binding.generation, receipt: receipt.generation },
        ),
        signature_valid(signer@, *receipt) && receipt.effect_id@ == binding.effect_id@
            && receipt.params_digest@ == binding.params_digest@ && receipt.generation == binding.generation
            && receipt_expired(*receipt, now) ==> r == Err::<(), ApprovalFailure>(ApprovalFailure::Expired),
{
    match signer.verify(receipt) {
        Ok(()) => {},
        Err(e) => return Err(e),
    }
    if !str_eq(receipt.effect_id.as_str(), binding.effect_id.as_str()) {
        return Err(
            ApprovalFailure::EffectMismatch {
                expected: owned(binding.effect_id.as_str()),
                receipt: owned(receipt.effect_id.as_str()),
            },
        );
    }
    if !receipt.params_digest.same(&binding.params_digest) {
        return Err(
            ApprovalFailure::ParamsChanged {
                expected: owned(binding.params_digest.as_str()),
                receipt: owned(receipt.params_digest.as_str()),
            },
        );
    }
    if receipt.generation != binding.generation {
        return Err(
            ApprovalFailure::GenerationStale {
                expected: binding.generation,
                receipt: receipt.generation,
            },
        );
    }
    if receipt.is_expired(now) {
        return Err(ApprovalFailure::Expired);
    }
    Ok(())
}

} // verus!
