//! The decisions behind the approval lifecycle: granting a request and issuing its
//! receipt, superseding a request whose parameters changed, denying or expiring it, and
//! consuming a receipt for exactly one dispatch.
//!
//! Each function takes the facts read under the row lock and says whether the write may
//! happen; on any failure nothing is written, so a denied, expired, superseded, replayed
//! or stale receipt changes nothing.

use vstd::prelude::*;
use crate::text::{owned, str_eq};
use crate::time::{Timestamp, earlier};
use crate::crypto::{Digest, hex_text};
use crate::policy::approval::{
    ApprovalReceipt, ApprovalRequestStatus, ApprovalSigner, DispatchBinding, ReceiptScope,
    receipt_tag, request_status_name, signature_valid, receipt_expired, verify_receipt,
};
use crate::policy::error::{ApprovalFailure, PolicyError};

verus! {

/// The locked row of a request about to be granted, denied, expired or superseded.
#[derive(Debug, Clone, PartialEq, Eq)]
pub struct RequestRow {
    /// Stored status.
    pub status: String,
    /// When the request expires.
    pub expires_at: Timestamp,
}

/// Whether a request may be granted: the row exists, is `requested` and has not expired.
pub fn grant_check(
    request_id: &str,
    tenant_id: &str,
    row: Option<&RequestRow>,
    now: Timestamp,
) -> (r: Result<(), PolicyError>)
    ensures
        match row {
            None => r matches Err(PolicyError::ApprovalNotFound { id, tenant_id: t }) && id@ == request_id@
                && t@ == tenant_id@,
            Some(x) => if x.status@ != "requested"@ {
                r matches Err(PolicyError::ApprovalNotPending { request_id: id, status }) && id@ == request_id@
                    && status@ == x.status@
            } else if !earlier(now@, x.expires_at@) {
                r matches Err(PolicyError::ApprovalNotPending { request_id: id, status }) && id@ == request_id@
                    && status@ == "expired"@
            } else {
                r is Ok
            },
        },
{
    let row = match row {
        None => {
            return Err(PolicyError::ApprovalNotFound { id: owned(request_id), tenant_id: owned(tenant_id) });
        },
        Some(row) => row,
    };
    if !str_eq(row.status.as_str(), "requested") {
        return Err(
            PolicyError::ApprovalNotPending { request_id: owned(request_id), status: owned(row.status.as_str()) },
        );
    }
    if !now.is_before(&row.expires_at) {
        return Err(
            PolicyError::ApprovalNotPending {
                request_id: owned(request_id),
                status: owned(ApprovalRequestStatus::Expired.as_str()),
            },
        );
    }
    Ok(())
}

/// Issue the single-use receipt for a granted request, signed under the server key.
/// It is granted at `now` and expires with the request.
pub fn issue_receipt(
    signer: &ApprovalSigner,
    receipt_id: &str,
    request_id: &str,
    effect_id: &str,
    approver_user_id: &str,
    params_digest: Digest,
    generation: u64,
    now: Timestamp,
    expires_at: Timestamp,
) -> (r: ApprovalReceipt)
    ensures
        r.id@ == receipt_id@,
        r.request_id@ == request_id@,
        r.effect_id@ == effect_id@,
        r.approver_user_id@ == approver_user_id@,
        r.params_digest == params_digest,
        r.generation == generation,
        r.granted_at == now,
        r.expires_at == expires_at,
        r.signature@ == hex_text(receipt_tag(signer@, r)),
        signature_valid(signer@, r),
{
    let mut receipt = ApprovalReceipt {
        id: owned(receipt_id),
        request_id: owned(request_id),
        effect_id: owned(effect_id),
        approver_user_id: owned(approver_user_id),
        params_digest,
        scope: ReceiptScope::SingleUse,
        generation,
        granted_at: now,
        expires_at,
        signature: String::new(),
    };
    let ghost unsigned = receipt;
    let signature = match signer.sign(&receipt) {
        Ok(s) => s,
        Err(_) => String::new(),
    };
    receipt.signature = signature;
    proof {
        assert(crate::policy::approval::signing_text(receipt) == crate::policy::approval::signing_text(unsigned));
        crate::policy::approval::law_signed_receipt_verifies(signer@, receipt);
    }
    receipt
}

/// The request a changed parameter digest supersedes: the oldest pending request of the
/// effect, when its digest differs. `None` means nothing is written.
pub fn supersede_target(pending: Option<(String, String)>, params_digest: &Digest) -> (r: Option<String>)
    ensures
        r is Some <==> (pending matches Some(p) && p.1@ != params_digest@),
        r matches Some(id) ==> (pending matches Some(p) && id@ == p.0@),
{
    match pending {
        None => None,
        Some((request_id, current)) => {
            if str_eq(current.as_str(), params_digest.as_str()) {
                None
            } else {
                Some(request_id)
            }
        },
    }
}

/// The event a terminal transition of a pending request emits.
pub open spec fn transition_event_name(to: ApprovalRequestStatus) -> Option<Seq<char>> {
    match to {
        ApprovalRequestStatus::Denied => Some("approval.denied"@),
        ApprovalRequestStatus::Expired => Some("approval.expired"@),
        ApprovalRequestStatus::Superseded => Some("approval.superseded"@),
        _ => None,
    }
}

/// Whether a pending request may move to `to`, and the event that records it. Only
/// `denied`, `expired` and `superseded` are handled here, and only from `requested`.
pub fn transition_check(
    request_id: &str,
    tenant_id: &str,
    to: ApprovalRequestStatus,
    current_status: Option<&str>,
) -> (r: Result<&'static str, PolicyError>)
    ensures
        transition_event_name(to) is None ==> (r matches Err(PolicyError::InvalidArgument(msg)) && msg@
            == "only denied, expired and superseded are handled here"@),
        transition_event_name(to) matches Some(name) ==> match current_status {
            None => r matches Err(PolicyError::ApprovalNotFound { id, tenant_id: t }) && id@ == request_id@
                && t@ == tenant_id@,
            Some(s) => if s@ == "requested"@ {
                r matches Ok(event) && event@ == name
            } else {
                r matches Err(PolicyError::ApprovalNotPending { request_id: id, status }) && id@ == request_id@
                    && status@ == s@
            },
        },
{
    let event = match to {
        ApprovalRequestStatus::Denied => "approval.denied",
        ApprovalRequestStatus::Expired => "approval.expired",
        ApprovalRequestStatus::Superseded => "approval.superseded",
        _ => {
            return Err(PolicyError::InvalidArgument(owned("only denied, expired and superseded are handled here")));
        },
    };
    let status = match current_status {
        None => {
            return Err(PolicyError::ApprovalNotFound { id: owned(request_id), tenant_id: owned(tenant_id) });
        },
        Some(s) => s,
    };
    if !str_eq(status, "requested") {
        return Err(PolicyError::ApprovalNotPending { request_id: owned(request_id), status: owned(status) });
    }
    Ok(event)
}

/// The predicate "the request is pending and past its expiry at `now`".
pub open spec fn due(now: Timestamp) -> spec_fn((String, RequestRow)) -> bool {
    |p: (String, RequestRow)| p.1.status@ == "requested"@ && !earlier(now@, p.1.expires_at@)
}

/// The ids of a sequence of strings.
pub open spec fn string_views(s: Seq<String>) -> Seq<Seq<char>> {
    s.map_values(|x: String| x@)
}

/// The ids of the pending requests that are due to expire at `now`, in order.
pub fn due_for_expiry(requests: &Vec<(String, RequestRow)>, now: Timestamp) -> (r: Vec<String>)
    ensures
        string_views(r@) == requests@.filter(due(now)).map_values(|p: (String, RequestRow)| p.0@),
{
    let ghost f = |p: (String, RequestRow)| p.0@;
    let mut out: Vec<String> = Vec::new();
    let mut k: usize = 0;
    proof {
        reveal(Seq::filter);
        assert(requests@.take(0).filter(due(now)) =~= Seq::<(String, RequestRow)>::empty());
        assert(string_views(out@) =~= requests@.take(0).filter(due(now)).map_values(f));
    }
    while k < requests.len()
        invariant
            k <= requests@.len(),
            f == (|p: (String, RequestRow)| p.0@),
            string_views(out@) == requests@.take(k as int).filter(due(now)).map_values(f),
        decreases requests@.len() - k,
    {
        let (id, row) = &requests[k];
        let keep = str_eq(row.status.as_str(), "requested") && !now.is_before(&row.expires_at);
        let ghost before = out@;
        if keep {
            out.push(owned(id.as_str()));
        }
        proof {
            reveal(Seq::filter);
            let t = requests@.take(k + 1);
            assert(t.drop_last() =~= requests@.take(k as int));
            assert(t.last() == requests@[k as int]);
            if keep {
                assert(string_views(out@) =~= string_views(before).push(id@));
                assert(t.filter(due(now)).map_values(f) =~= requests@.take(k as int).filter(due(now)).map_values(
                    f,
                ).push(f(requests@[k as int])));
            } else {
                assert(string_views(out@) =~= string_views(before));
            }
        }
        k = k + 1;
    }
    proof {
        assert(requests@.take(requests@.len() as int) =~= requests@);
    }
    out
}

/// The facts read about the effect record a receipt would authorize.
#[derive(Debug, Clone, PartialEq, Eq)]
pub struct EffectRow {
    /// Owning workspace.
    pub workspace_id: String,
    /// Effect status (`PROPOSED`, `AUTHORIZED`, ...).
    pub status: String,
    /// Digest of the effect's current parameters.
    pub params_digest: String,
    /// Controller generation of the effect.
    pub generation: i64,
    /// The receipt already bound to the effect, if any.
    pub approval_receipt_id: Option<String>,
    /// How many effects already carry this receipt.
    pub receipts_bound_elsewhere: i64,
}

/// Whether an effect may still be authorized by a receipt.
pub open spec fn effect_open(status: Seq<char>) -> bool {
    status == "PROPOSED"@ || status == "AUTHORIZED"@
}

/// Whether every check a receipt consumption makes passes.
pub open spec fn consumable(
    key: Seq<u8>,
    receipt: ApprovalReceipt,
    binding: DispatchBinding,
    now: Timestamp,
    request_status: Option<Seq<char>>,
    effect: Option<EffectRow>,
) -> bool {
    &&& signature_valid(key, receipt)
    &&& receipt.effect_id@ == binding.effect_id@
    &&& receipt.params_digest@ == binding.params_digest@
    &&& receipt.generation == binding.generation
    &&& !receipt_expired(receipt, now)
    &&& request_status == Some("granted"@)
    &&& effect matches Some(e)
    &&& e.approval_receipt_id is None
    &&& e.receipts_bound_elsewhere <= 0
    &&& e.params_digest@ == receipt.params_digest@
    &&& (e.generation as u64) == receipt.generation
    &&& effect_open(e.status@)
}

/// The refusal of a receipt by [`verify_receipt`]: a bad signature first, then a different
/// effect, parameters or generation, then expiry.
pub open spec fn receipt_failure(key: Seq<u8>, receipt: ApprovalReceipt, binding: DispatchBinding, now: Timestamp, f: ApprovalFailure) -> bool {
    if !signature_valid(key, receipt) {
        f == ApprovalFailure::SignatureInvalid
    } else if receipt.effect_id@ != binding.effect_id@ {
        f matches ApprovalFailure::EffectMismatch { expected, receipt: got } && expected@ == binding.effect_id@ && got@
            == receipt.effect_id@
    } else if receipt.params_digest@ != binding.params_digest@ {
        f matches ApprovalFailure::ParamsChanged { expected, receipt: got } && expected@ == binding.params_digest@
            && got@ == receipt.params_digest@
    } else if receipt.generation != binding.generation {
        f == ApprovalFailure::GenerationStale { expected: binding.generation, receipt: receipt.generation }
    } else {
        f == ApprovalFailure::Expired
    }
}

/// Whether `r` is what consuming the receipt answers: the receipt's own refusal first,
/// then an ungranted request, a missing effect, a receipt already bound, changed
/// parameters, a stale generation and an effect no longer open, in that order.
pub open spec fn consume_outcome(
    key: Seq<u8>,
    receipt: ApprovalReceipt,
    binding: DispatchBinding,
    now: Timestamp,
    tenant_id: Seq<char>,
    request_status: Option<Seq<char>>,
    effect: Option<EffectRow>,
    r: Result<(), PolicyError>,
) -> bool {
    if !(signature_valid(key, receipt) && receipt.effect_id@ == binding.effect_id@ && receipt.params_digest@
        == binding.params_digest@ && receipt.generation == binding.generation && !receipt_expired(receipt, now)) {
        r matches Err(PolicyError::ApprovalInvalid(f)) && receipt_failure(key, receipt, binding, now, f)
    } else if request_status != Some("granted"@) {
        r matches Err(PolicyError::ApprovalInvalid(ApprovalFailure::RequestNotGranted { status })) && status@ == match request_status {
            Some(s) => s,
            None => Seq::<char>::empty(),
        }
    } else {
        match effect {
            None => r matches Err(PolicyError::EffectNotFound { effect_id, tenant_id: t }) && effect_id@ == binding.effect_id@
                && t@ == tenant_id,
            Some(e) => if e.approval_receipt_id is Some || e.receipts_bound_elsewhere > 0 {
                r == Err::<(), PolicyError>(PolicyError::ApprovalInvalid(ApprovalFailure::AlreadyUsed))
            } else if e.params_digest@ != receipt.params_digest@ {
                r matches Err(PolicyError::ApprovalInvalid(ApprovalFailure::ParamsChanged { expected, receipt: got }))
                    && expected@ == e.params_digest@ && got@ == receipt.params_digest@
            } else if (e.generation as u64) != receipt.generation {
                r == Err::<(), PolicyError>(
                    PolicyError::ApprovalInvalid(
                        ApprovalFailure::GenerationStale { expected: e.generation as u64, receipt: receipt.generation },
                    ),
                )
            } else if !effect_open(e.status@) {
                r == Err::<(), PolicyError>(PolicyError::ApprovalInvalid(ApprovalFailure::AlreadyUsed))
            } else {
                r is Ok
            },
        }
    }
}

/// Whether a receipt may be consumed for a dispatch: it verifies against the binding,
/// its request is `granted`, the effect exists, is unbound and still open, and the
/// receipt matches the effect's current parameters and generation. The first failed
/// check is reported; the caller binds the receipt only on `Ok`.
pub fn consume_check(
    signer: &ApprovalSigner,
    receipt: &ApprovalReceipt,
    binding: &DispatchBinding,
    now: Timestamp,
    tenant_id: &str,
    request_status: Option<&str>,
    effect: Option<&EffectRow>,
) -> (r: Result<(), PolicyError>)
    ensures
        consume_outcome(
            signer@,
            *receipt,
            *binding,
            now,
            tenant_id@,
            match request_status {
                Some(s) => Some(s@),
                None => None,
            },
            match effect {
                Some(e) => Some(*e),
                None => None,
            },
            r,
        ),
        r is Ok <==> consumable(
            signer@,
            *receipt,
            *binding,
            now,
            match request_status {
                Some(s) => Some(s@),
                None => None,
            },
            match effect {
                Some(e) => Some(*e),
                None => None,
            },
        ),
{
    match verify_receipt(signer, receipt, binding, now) {
        Ok(()) => {},
        Err(f) => return Err(PolicyError::ApprovalInvalid(f)),
    }
    let status = match request_status {
        Some(s) => owned(s),
        None => String::new(),
    };
    proof {
        reveal_strlit("granted");
    }
    if !str_eq(status.as_str(), "granted") {
        return Err(PolicyError::ApprovalInvalid(ApprovalFailure::RequestNotGranted { status }));
    }
    let effect = match effect {
        None => {
            return Err(
                PolicyError::EffectNotFound { effect_id: owned(binding.effect_id.as_str()), tenant_id: owned(tenant_id) },
            );
        },
        Some(e) => e,
    };
    if effect.approval_receipt_id.is_some() || effect.receipts_bound_elsewhere > 0 {
        return Err(PolicyError::ApprovalInvalid(ApprovalFailure::AlreadyUsed));
    }
    if !str_eq(effect.params_digest.as_str(), receipt.params_digest.as_str()) {
        return Err(
            PolicyError::ApprovalInvalid(
                ApprovalFailure::ParamsChanged {
                    expected: owned(effect.params_digest.as_str()),
                    receipt: owned(receipt.params_digest.as_str()),
                },
            ),
        );
    }
    if effect.generation as u64 != receipt.generation {
        return Err(
            PolicyError::ApprovalInvalid(
                ApprovalFailure::GenerationStale { expected: effect.generation as u64, receipt: receipt.generation },
            ),
        );
    }
    if !(str_eq(effect.status.as_str(), "PROPOSED") || str_eq(effect.status.as_str(), "AUTHORIZED")) {
        return Err(PolicyError::ApprovalInvalid(ApprovalFailure::AlreadyUsed));
    }
    Ok(())
}

/// A receipt is consumed at most once: once an effect carries a receipt, no further
/// consumption succeeds for it.
pub proof fn law_receipt_is_single_use(
    key: Seq<u8>,
    receipt: ApprovalReceipt,
    binding: DispatchBinding,
    now: Timestamp,
    request_status: Option<Seq<char>>,
    effect: EffectRow,
)
    requires
        effect.approval_receipt_id is Some || effect.receipts_bound_elsewhere > 0,
    ensures
        !consumable(key, receipt, binding, now, request_status, Some(effect)),
{
}

/// A receipt whose request was not granted, or that is past its expiry, is never
/// consumed.
pub proof fn law_ungranted_or_expired_receipt_is_refused(
    key: Seq<u8>,
    receipt: ApprovalReceipt,
    binding: DispatchBinding,
    now: Timestamp,
    request_status: Option<Seq<char>>,
    effect: Option<EffectRow>,
)
    requires
        request_status != Some("granted"@) || receipt_expired(receipt, now),
    ensures
        !consumable(key, receipt, binding, now, request_status, effect),
{
}

} // verus!
