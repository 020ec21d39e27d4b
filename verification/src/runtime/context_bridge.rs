//! The context bridge: the runtime's side of the context projection boundary.
//!
//! The intelligence plane owns how context is searched, ranked and packed. This module
//! owns what the runtime guarantees about crossing that boundary: what comes back is not
//! trusted blindly. Every segment must carry a known trust level, and the projection must
//! name itself and the snapshot it was built from; an unlabelled or unknown-labelled
//! segment is refused, so a plane bug never turns into model-visible content with no
//! provenance. A validated projection's id is what a turn records.

use vstd::prelude::*;
use crate::text::{is_blank, owned, str_eq, str_is_blank};
use crate::policy::escalation::{TrustLevel, trust_rank};

verus! {

/// Repository path of this module's canonical owner.
pub const CONTEXT_BRIDGE_OWNER: &'static str = "crates/server/src/runtime/context_bridge";

/// The owner of the typed RPC boundary the production port crosses.
pub const RPC_BOUNDARY_OWNER: &'static str = "INT-001";

/// A context-bridge refusal.
#[derive(Debug, Clone, PartialEq, Eq)]
pub enum ContextBridgeError {
    /// A segment arrived without a trust level, so its provenance is unknown.
    UnlabelledSegment {
        /// The offending segment.
        segment_id: String,
    },
    /// A segment named an unknown trust level.
    UnknownTrustLevel {
        /// The offending segment.
        segment_id: String,
        /// The unrecognised label.
        trust_level: String,
    },
    /// The projection did not identify itself or its snapshot.
    MalformedProjection {
        /// What is missing.
        detail: String,
    },
    /// The projection no longer matches the sources.
    StaleSnapshot {
        /// Snapshot the projection was built from.
        built: String,
        /// Snapshot the runtime observes now.
        current: String,
    },
    /// The bridge is not wired; the named owner owns it.
    Unavailable {
        /// Owner.
        owner: String,
        /// What is missing.
        detail: String,
    },
}

/// The public error code of a bridge refusal.
pub open spec fn bridge_error_code(e: ContextBridgeError) -> Seq<char> {
    match e {
        ContextBridgeError::UnlabelledSegment { .. } => "VALIDATION_SCHEMA"@,
        ContextBridgeError::UnknownTrustLevel { .. } => "VALIDATION_SCHEMA"@,
        ContextBridgeError::MalformedProjection { .. } => "VALIDATION_SCHEMA"@,
        ContextBridgeError::StaleSnapshot { .. } => "CONFLICT_STATE"@,
        ContextBridgeError::Unavailable { .. } => "INTERNAL"@,
    }
}

impl ContextBridgeError {
    /// The public error code this refusal maps to.
    pub fn code(&self) -> (r: &'static str)
        ensures
            r@ == bridge_error_code(*self),
    {
        match self {
            ContextBridgeError::UnlabelledSegment { .. } => "VALIDATION_SCHEMA",
            ContextBridgeError::UnknownTrustLevel { .. } => "VALIDATION_SCHEMA",
            ContextBridgeError::MalformedProjection { .. } => "VALIDATION_SCHEMA",
            ContextBridgeError::StaleSnapshot { .. } => "CONFLICT_STATE",
            ContextBridgeError::Unavailable { .. } => "INTERNAL",
        }
    }
}

/// What a run asks the intelligence plane for.
#[derive(Debug, Clone, PartialEq, Eq)]
pub struct ProjectionRequest {
    /// Run the projection is for.
    pub run_id: String,
    /// Workspace the run belongs to.
    pub workspace_id: String,
    /// The search program the plane must execute, carried opaquely.
    pub program_json: String,
    /// Snapshot of the sources the program must run against.
    pub snapshot_id: String,
    /// Token budget the projection must respect.
    pub token_budget: u32,
}

/// One segment the plane returned.
#[derive(Debug, Clone, PartialEq, Eq)]
pub struct ProjectionSegment {
    /// Segment identity.
    pub segment_id: String,
    /// Where the content came from.
    pub source: String,
    /// The trust level the plane assigned, as it spells it.
    pub trust_level: String,
    /// Tokens the segment costs.
    pub tokens: u32,
}

/// A projection as received, before the boundary check accepts it.
#[derive(Debug, Clone, PartialEq, Eq)]
pub struct ReceivedProjection {
    /// Projection identity the turn will record.
    pub projection_id: String,
    /// Snapshot the projection was built from.
    pub snapshot_id: String,
    /// Segments, in render order.
    pub segments: Vec<ProjectionSegment>,
    /// Tokens the plane reports as used.
    pub tokens_used: u32,
    /// Whether the plane reports it had to drop context.
    pub degraded: bool,
}

/// A projection the boundary check accepted, with labels resolved.
#[derive(Debug, Clone, PartialEq, Eq)]
pub struct ValidatedProjection {
    /// Identity the turn records.
    pub projection_id: String,
    /// Snapshot the projection was built from.
    pub snapshot_id: String,
    /// Segments with their trust levels.
    pub segments: Vec<(ProjectionSegment, TrustLevel)>,
    /// Tokens used.
    pub tokens_used: u32,
    /// Whether the plane reported degradation.
    pub degraded: bool,
}

/// The least trusted of the levels of `s`, if any.
pub open spec fn weakest(s: Seq<(ProjectionSegment, TrustLevel)>) -> Option<TrustLevel>
    decreases s.len(),
{
    if s.len() == 0 {
        None
    } else {
        match weakest(s.drop_last()) {
            Some(w) => if trust_rank(s.last().1) >= trust_rank(w) {
                Some(s.last().1)
            } else {
                Some(w)
            },
            None => Some(s.last().1),
        }
    }
}

impl ValidatedProjection {
    /// The trust level of the least trusted segment, which is what a policy escalates
    /// from; none without segments.
    pub fn weakest_trust(&self) -> (r: Option<TrustLevel>)
        ensures
            r == weakest(self.segments@),
            r matches Some(w) ==> forall|k: int| 0 <= k < self.segments@.len() ==> trust_rank(#[trigger] self.segments@[k].1) <= trust_rank(w),
    {
        let mut best: Option<TrustLevel> = None;
        let mut i: usize = 0;
        while i < self.segments.len()
            invariant
                i <= self.segments@.len(),
                best == weakest(self.segments@.take(i as int)),
                best matches Some(w) ==> forall|k: int| 0 <= k < i ==> trust_rank(#[trigger] self.segments@[k].1) <= trust_rank(w),
            decreases self.segments@.len() - i,
        {
            proof {
                assert(self.segments@.take(i + 1).drop_last() =~= self.segments@.take(i as int));
            }
            let t = self.segments[i].1;
            best = match best {
                Some(w) => if t.rank() >= w.rank() {
                    Some(t)
                } else {
                    Some(w)
                },
                None => Some(t),
            };
            i = i + 1;
        }
        proof {
            assert(self.segments@.take(self.segments@.len() as int) =~= self.segments@);
        }
        best
    }
}

/// The default port: the production one crosses the typed RPC boundary, so an unwired
/// runtime fails closed rather than fabricating context.
#[derive(Debug, Clone, Copy, Default)]
pub struct UnavailableContextBridge;

impl UnavailableContextBridge {
    /// Asking an unwired bridge for a projection fails closed.
    pub fn project(&self, request: ProjectionRequest) -> (r: Result<ReceivedProjection, ContextBridgeError>)
        ensures
            r matches Err(e) && (e matches ContextBridgeError::Unavailable { owner, detail } && owner@ == "INT-001"@ && detail@
                == "the context bridge is not wired"@),
    {
        Err(ContextBridgeError::Unavailable { owner: owned(RPC_BOUNDARY_OWNER), detail: owned("the context bridge is not wired") })
    }
}

/// Whether `r` is the refusal of segment `s`, whose label parsed to `label`, if any.
pub open spec fn segment_refusal(s: ProjectionSegment, label: Option<TrustLevel>) -> Option<ContextBridgeError> {
    if is_blank(s.trust_level@) {
        Some(ContextBridgeError::UnlabelledSegment { segment_id: s.segment_id })
    } else if label is None {
        Some(ContextBridgeError::UnknownTrustLevel { segment_id: s.segment_id, trust_level: s.trust_level })
    } else {
        None
    }
}

/// The first refusal among segments `k..` of `segs`, labelled by `labels`.
pub open spec fn first_segment_refusal(segs: Seq<ProjectionSegment>, labels: Seq<Option<TrustLevel>>, k: int) -> Option<ContextBridgeError>
    decreases segs.len() - k,
{
    if k >= segs.len() {
        None
    } else {
        match segment_refusal(segs[k], labels[k]) {
            Some(e) => Some(e),
            None => first_segment_refusal(segs, labels, k + 1),
        }
    }
}

/// The detail refusing a projection that does not identify itself or its snapshot, if any.
pub open spec fn identity_refusal(received: ReceivedProjection) -> Option<Seq<char>> {
    if is_blank(received.projection_id@) {
        Some("the projection has no id"@)
    } else if is_blank(received.snapshot_id@) {
        Some("the projection does not name the snapshot it was built from"@)
    } else {
        None
    }
}

/// Check what the plane returned before a run may use it. `labels[k]` is the trust level
/// segment `k`'s label names in the trust vocabulary, `None` when it names none. The
/// projection must name itself and its snapshot; `current_snapshot` refuses a projection
/// the sources have moved past; every segment must carry a known trust level.
pub fn validate_projection(received: ReceivedProjection, current_snapshot: Option<&str>, labels: Vec<Option<TrustLevel>>) -> (r: Result<ValidatedProjection, ContextBridgeError>)
    requires
        labels@.len() == received.segments@.len(),
    ensures
        identity_refusal(received) matches Some(d) ==> (r matches Err(e) && (e matches ContextBridgeError::MalformedProjection {
            detail,
        } && detail@ == d)),
        identity_refusal(received) is None && (current_snapshot matches Some(c) && c@ != received.snapshot_id@) ==> (r matches Err(e)
            && (e matches ContextBridgeError::StaleSnapshot { built, current } && built == received.snapshot_id && current@
            == current_snapshot->0@)),
        identity_refusal(received) is None && !(current_snapshot matches Some(c) && c@ != received.snapshot_id@) ==> match first_segment_refusal(
            received.segments@,
            labels@,
            0,
        ) {
            Some(e) => r == Err::<ValidatedProjection, ContextBridgeError>(e),
            None => r matches Ok(v) && v.projection_id == received.projection_id && v.snapshot_id == received.snapshot_id
                && v.tokens_used == received.tokens_used && v.degraded == received.degraded && v.segments@.len()
                == received.segments@.len() && forall|k: int|
                0 <= k < v.segments@.len() ==> (#[trigger] v.segments@[k]).0 == received.segments@[k] && Some(v.segments@[k].1)
                    == labels@[k],
        },
{
    if str_is_blank(received.projection_id.as_str()) {
        return Err(ContextBridgeError::MalformedProjection { detail: owned("the projection has no id") });
    }
    if str_is_blank(received.snapshot_id.as_str()) {
        return Err(
            ContextBridgeError::MalformedProjection { detail: owned("the projection does not name the snapshot it was built from") },
        );
    }
    match current_snapshot {
        Some(current) => {
            if !str_eq(current, received.snapshot_id.as_str()) {
                return Err(ContextBridgeError::StaleSnapshot { built: received.snapshot_id, current: owned(current) });
            }
        },
        None => {},
    }
    let ghost segs = received.segments@;
    let mut segments: Vec<(ProjectionSegment, TrustLevel)> = Vec::new();
    let mut i: usize = 0;
    while i < received.segments.len()
        invariant
            i <= segs.len(),
            segs == received.segments@,
            labels@.len() == segs.len(),
            !is_blank(received.projection_id@),
            !is_blank(received.snapshot_id@),
            !(current_snapshot matches Some(c) && c@ != received.snapshot_id@),
            first_segment_refusal(segs, labels@, 0) == first_segment_refusal(segs, labels@, i as int),
            segments@.len() == i,
            forall|k: int| 0 <= k < i ==> (#[trigger] segments@[k]).0 == segs[k] && Some(segments@[k].1) == labels@[k],
        decreases segs.len() - i,
    {
        let segment = &received.segments[i];
        if str_is_blank(segment.trust_level.as_str()) {
            return Err(ContextBridgeError::UnlabelledSegment { segment_id: segment.segment_id.clone() });
        }
        match labels[i] {
            Some(trust) => {
                let copy = ProjectionSegment {
                    segment_id: segment.segment_id.clone(),
                    source: segment.source.clone(),
                    trust_level: segment.trust_level.clone(),
                    tokens: segment.tokens,
                };
                segments.push((copy, trust));
            },
            None => {
                return Err(
                    ContextBridgeError::UnknownTrustLevel {
                        segment_id: segment.segment_id.clone(),
                        trust_level: segment.trust_level.clone(),
                    },
                );
            },
        }
        i = i + 1;
    }
    Ok(
        ValidatedProjection {
            projection_id: received.projection_id,
            snapshot_id: received.snapshot_id,
            segments,
            tokens_used: received.tokens_used,
            degraded: received.degraded,
        },
    )
}

} // verus!
