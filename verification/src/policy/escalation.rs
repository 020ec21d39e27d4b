//! Content-trust labelling and policy tier escalation.
//!
//! A proposal records `derived_from_trust`, the most-untrusted label among the context
//! segments it referenced. An unlabelled or absent derivation counts as
//! `UNTRUSTED_EXTERNAL`, so escalation can only make policy stricter.

use vstd::prelude::*;
use crate::text::{str_eq, owned};
use crate::policy::capability::Tier;

verus! {

/// The canonical content-trust levels, most trusted first.
#[derive(Debug, Clone, Copy, PartialEq, Eq, Hash, PartialOrd, Ord, Structural)]
pub enum TrustLevel {
    /// Runtime-rendered system, policy and tool definitions.
    TrustedSystem,
    /// Messages authored by authenticated workspace members.
    TrustedUser,
    /// An active knowledge entry or skill.
    VerifiedKnowledge,
    /// Prior assistant or worker output.
    AgentGenerated,
    /// Web pages, fetched documents, emails, connector payloads, tool output, uploads.
    UntrustedExternal,
}

/// The uppercase wire name of a trust level.
pub open spec fn trust_name(t: TrustLevel) -> Seq<char> {
    match t {
        TrustLevel::TrustedSystem => "TRUSTED_SYSTEM"@,
        TrustLevel::TrustedUser => "TRUSTED_USER"@,
        TrustLevel::VerifiedKnowledge => "VERIFIED_KNOWLEDGE"@,
        TrustLevel::AgentGenerated => "AGENT_GENERATED"@,
        TrustLevel::UntrustedExternal => "UNTRUSTED_EXTERNAL"@,
    }
}

/// Trust rank: `0` most trusted, `4` least trusted.
pub open spec fn trust_rank(t: TrustLevel) -> nat {
    match t {
        TrustLevel::TrustedSystem => 0,
        TrustLevel::TrustedUser => 1,
        TrustLevel::VerifiedKnowledge => 2,
        TrustLevel::AgentGenerated => 3,
        TrustLevel::UntrustedExternal => 4,
    }
}

impl TrustLevel {
    /// Every level, most trusted first.
    pub const ALL: [TrustLevel; 5] = [
        TrustLevel::TrustedSystem,
        TrustLevel::TrustedUser,
        TrustLevel::VerifiedKnowledge,
        TrustLevel::AgentGenerated,
        TrustLevel::UntrustedExternal,
    ];

    /// The canonical uppercase wire name.
    pub fn as_str(self) -> (s: &'static str)
        ensures
            s@ == trust_name(self),
    {
        match self {
            TrustLevel::TrustedSystem => "TRUSTED_SYSTEM",
            TrustLevel::TrustedUser => "TRUSTED_USER",
            TrustLevel::VerifiedKnowledge => "VERIFIED_KNOWLEDGE",
            TrustLevel::AgentGenerated => "AGENT_GENERATED",
            TrustLevel::UntrustedExternal => "UNTRUSTED_EXTERNAL",
        }
    }

    /// Parse a canonical level name; the rejected value is returned on failure.
    pub fn parse(value: &str) -> (r: Result<TrustLevel, String>)
        ensures
            r matches Ok(t) ==> trust_name(t) == value@,
            r is Err ==> forall|t: TrustLevel| trust_name(t) != value@,
            r matches Err(v) ==> v@ == value@,
    {
        if str_eq(value, "TRUSTED_SYSTEM") {
            Ok(TrustLevel::TrustedSystem)
        } else if str_eq(value, "TRUSTED_USER") {
            Ok(TrustLevel::TrustedUser)
        } else if str_eq(value, "VERIFIED_KNOWLEDGE") {
            Ok(TrustLevel::VerifiedKnowledge)
        } else if str_eq(value, "AGENT_GENERATED") {
            Ok(TrustLevel::AgentGenerated)
        } else if str_eq(value, "UNTRUSTED_EXTERNAL") {
            Ok(TrustLevel::UntrustedExternal)
        } else {
            proof {
                assert forall|t: TrustLevel| trust_name(t) != value@ by {
                    match t {
                        TrustLevel::TrustedSystem => {},
                        TrustLevel::TrustedUser => {},
                        TrustLevel::VerifiedKnowledge => {},
                        TrustLevel::AgentGenerated => {},
                        TrustLevel::UntrustedExternal => {},
                    }
                }
            }
            Err(owned(value))
        }
    }

    /// Trust rank: `0` most trusted, `4` least trusted.
    pub fn rank(self) -> (r: u8)
        ensures
            r == trust_rank(self),
    {
        match self {
            TrustLevel::TrustedSystem => 0,
            TrustLevel::TrustedUser => 1,
            TrustLevel::VerifiedKnowledge => 2,
            TrustLevel::AgentGenerated => 3,
            TrustLevel::UntrustedExternal => 4,
        }
    }

    /// Whether this is the data-only external level.
    pub fn is_untrusted_external(self) -> (r: bool)
        ensures
            r == (self == TrustLevel::UntrustedExternal),
    {
        match self {
            TrustLevel::UntrustedExternal => true,
            _ => false,
        }
    }
}

/// Trust level names are distinct.
pub proof fn lemma_trust_names_distinct(a: TrustLevel, b: TrustLevel)
    ensures
        trust_name(a) == trust_name(b) ==> a == b,
{
    reveal_strlit("TRUSTED_SYSTEM");
    reveal_strlit("TRUSTED_USER");
    reveal_strlit("VERIFIED_KNOWLEDGE");
    reveal_strlit("AGENT_GENERATED");
    reveal_strlit("UNTRUSTED_EXTERNAL");
    if a != b {
        let (x, y) = (trust_name(a), trust_name(b));
        assert(x[0] != y[0] || x.len() != y.len());
    }
}

/// A level's name parses back to that level, and ranks order levels strictly.
pub proof fn law_trust_levels_round_trip(t: TrustLevel)
    ensures
        forall|u: TrustLevel| trust_name(u) == trust_name(t) ==> u == t,
        forall|u: TrustLevel| trust_rank(u) == trust_rank(t) ==> u == t,
{
    assert forall|u: TrustLevel| trust_name(u) == trust_name(t) implies u == t by {
        lemma_trust_names_distinct(u, t);
    }
}

/// The fail-closed default for an absent or unlabelled derivation.
pub const FAIL_CLOSED_TRUST: TrustLevel = TrustLevel::UntrustedExternal;

/// The seam that labels a referenced context segment; `None` when it is unlabelled.
pub trait TrustLabellingSource {
    /// Whether this source's answers follow [`TrustLabellingSource::label`]; a source
    /// whose labelling is not written down in the library promises nothing more.
    open spec fn labels_by_spec(&self) -> bool {
        false
    }

    /// The label this source gives a context segment, `None` when it is unlabelled.
    open spec fn label(&self, segment_ref: Seq<char>) -> Option<TrustLevel> {
        None
    }

    /// The trust level of one context segment, or `None` when it is unlabelled.
    fn trust_of(&self, segment_ref: &str) -> (r: Option<TrustLevel>)
        ensures
            self.labels_by_spec() ==> r == self.label(segment_ref@),
    ;
}

/// A source that labels nothing; every derivation fails closed to untrusted.
#[derive(Debug, Clone, Copy, Default)]
pub struct UnavailableTrustLabelling;

impl TrustLabellingSource for UnavailableTrustLabelling {
    open spec fn labels_by_spec(&self) -> bool {
        true
    }

    open spec fn label(&self, segment_ref: Seq<char>) -> Option<TrustLevel> {
        None
    }

    fn trust_of(&self, segment_ref: &str) -> (r: Option<TrustLevel>)
        ensures
            r is None,
    {
        None
    }
}

/// The less trusted of two levels.
pub open spec fn worse(a: TrustLevel, b: TrustLevel) -> TrustLevel {
    if trust_rank(b) > trust_rank(a) {
        b
    } else {
        a
    }
}

/// Folding labels from `worst`: any missing label fails closed, else the least trusted.
pub open spec fn fold_trust(labels: Seq<Option<TrustLevel>>, worst: TrustLevel) -> TrustLevel
    decreases labels.len(),
{
    if labels.len() == 0 {
        worst
    } else {
        match labels[0] {
            None => TrustLevel::UntrustedExternal,
            Some(level) => fold_trust(labels.drop_first(), worse(worst, level)),
        }
    }
}

/// The derivation of a segment set from its labels: empty or any unlabelled segment fails
/// closed to untrusted, otherwise the most-untrusted label.
pub open spec fn derived_trust(labels: Seq<Option<TrustLevel>>) -> TrustLevel {
    if labels.len() == 0 {
        TrustLevel::UntrustedExternal
    } else {
        fold_trust(labels, TrustLevel::TrustedSystem)
    }
}

/// The derivation of a labelled segment set (see [`derived_trust`]).
pub fn derived_from_labels(labels: &[Option<TrustLevel>]) -> (r: TrustLevel)
    ensures
        r == derived_trust(labels@),
{
    if labels.len() == 0 {
        return FAIL_CLOSED_TRUST;
    }
    let mut worst = TrustLevel::TrustedSystem;
    let mut i: usize = 0;
    proof {
        assert(labels@.skip(0) =~= labels@);
    }
    while i < labels.len()
        invariant
            i <= labels@.len(),
            labels@.len() > 0,
            derived_trust(labels@) == fold_trust(labels@.skip(i as int), worst),
        decreases labels@.len() - i,
    {
        proof {
            assert(labels@.skip(i as int)[0] == labels@[i as int]);
            assert(labels@.skip(i as int).drop_first() =~= labels@.skip(i + 1));
        }
        match labels[i] {
            Some(level) => {
                if level.rank() > worst.rank() {
                    worst = level;
                }
            },
            None => return FAIL_CLOSED_TRUST,
        }
        i = i + 1;
    }
    worst
}

/// The labels `source` gives `segments`, in order.
pub open spec fn labels_of<S: TrustLabellingSource>(source: S, segments: Seq<String>) -> Seq<Option<TrustLevel>> {
    segments.map_values(|s: String| source.label(s@))
}

/// The most-untrusted label among `segments`, as labelled by `source`: untrusted when
/// there are none or one is unlabelled. The source is asked about the segments in order,
/// and no further once one is unlabelled. For a source whose labelling is written down
/// the result is exactly the derivation of its labels; for any source it is the
/// derivation of the labels it answered, one per segment.
pub fn derived_from_trust<S: TrustLabellingSource>(source: &S, segments: &[String]) -> (r: TrustLevel)
    ensures
        segments@.len() == 0 ==> r == FAIL_CLOSED_TRUST,
        source.labels_by_spec() ==> r == derived_trust(labels_of(*source, segments@)),
        exists|labels: Seq<Option<TrustLevel>>| labels.len() == segments@.len() && r == derived_trust(labels),
{
    let ghost labels = labels_of(*source, segments@);
    if segments.len() == 0 {
        proof {
            let e = Seq::<Option<TrustLevel>>::empty();
            assert(e.len() == segments@.len() && FAIL_CLOSED_TRUST == derived_trust(e));
        }
        return FAIL_CLOSED_TRUST;
    }
    let mut worst = TrustLevel::TrustedSystem;
    let ghost mut got: Seq<Option<TrustLevel>> = Seq::empty();
    let mut i: usize = 0;
    proof {
        assert forall|rest: Seq<Option<TrustLevel>>| #[trigger] fold_trust(got + rest, TrustLevel::TrustedSystem)
            == fold_trust(rest, worst) by {
            assert(got + rest =~= rest);
        }
    }
    while i < segments.len()
        invariant
            i <= segments@.len(),
            segments@.len() > 0,
            labels == labels_of(*source, segments@),
            labels.len() == segments@.len(),
            got.len() == i,
            source.labels_by_spec() ==> got == labels.take(i as int),
            forall|rest: Seq<Option<TrustLevel>>| #[trigger] fold_trust(got + rest, TrustLevel::TrustedSystem)
                == fold_trust(rest, worst),
        decreases segments@.len() - i,
    {
        let label = source.trust_of(segments[i].as_str());
        match label {
            Some(level) => {
                let ghost before = worst;
                if level.rank() > worst.rank() {
                    worst = level;
                }
                proof {
                    assert(worst == worse(before, level));
                    let g0 = got;
                    got = got.push(Some(level));
                    assert forall|rest: Seq<Option<TrustLevel>>| #[trigger] fold_trust(got + rest, TrustLevel::TrustedSystem)
                        == fold_trust(rest, worst) by {
                        let r2 = seq![Some(level)] + rest;
                        assert(got + rest =~= g0 + r2);
                        assert(fold_trust(g0 + r2, TrustLevel::TrustedSystem) == fold_trust(r2, before));
                        assert(r2.drop_first() =~= rest);
                    }
                    if source.labels_by_spec() {
                        assert(labels.take(i + 1) =~= labels.take(i as int).push(labels[i as int]));
                    }
                }
            },
            None => {
                proof {
                    let pad = Seq::new((segments@.len() - i - 1) as nat, |k: int| None::<TrustLevel>);
                    let rest = seq![None::<TrustLevel>] + pad;
                    let witness = got + rest;
                    assert(fold_trust(witness, TrustLevel::TrustedSystem) == fold_trust(rest, worst));
                    assert(witness.len() == segments@.len());
                    assert(FAIL_CLOSED_TRUST == derived_trust(witness));
                    if source.labels_by_spec() {
                        assert(labels[i as int] is None);
                        law_derived_trust_is_most_untrusted(labels);
                    }
                }
                return FAIL_CLOSED_TRUST;
            },
        }
        i = i + 1;
    }
    proof {
        assert(got + Seq::<Option<TrustLevel>>::empty() =~= got);
        assert(worst == derived_trust(got));
        if source.labels_by_spec() {
            assert(labels.take(i as int) =~= labels);
        }
    }
    worst
}

proof fn lemma_fold_bounds(labels: Seq<Option<TrustLevel>>, worst: TrustLevel)
    ensures
        trust_rank(fold_trust(labels, worst)) >= trust_rank(worst),
        forall|i: int| 0 <= i < labels.len() && (#[trigger] labels[i]) is Some ==> trust_rank(labels[i]->0) <= trust_rank(fold_trust(labels, worst)),
        (exists|i: int| 0 <= i < labels.len() && (#[trigger] labels[i]) is None) ==> fold_trust(labels, worst) == TrustLevel::UntrustedExternal,
    decreases labels.len(),
{
    if labels.len() > 0 {
        match labels[0] {
            None => {},
            Some(level) => {
                let rest = labels.drop_first();
                lemma_fold_bounds(rest, worse(worst, level));
                assert forall|i: int| 0 <= i < labels.len() && (#[trigger] labels[i]) is Some implies trust_rank(labels[i]->0) <= trust_rank(fold_trust(labels, worst)) by {
                    if i > 0 {
                        assert(labels[i] == rest[i - 1]);
                    }
                }
                if exists|i: int| 0 <= i < labels.len() && (#[trigger] labels[i]) is None {
                    let i = choose|i: int| 0 <= i < labels.len() && (#[trigger] labels[i]) is None;
                    assert(rest[i - 1] is None);
                }
            },
        }
    }
}

/// The derivation is never more trusted than any labelled segment, and a single
/// unlabelled segment makes the whole derivation untrusted.
pub proof fn law_derived_trust_is_most_untrusted(labels: Seq<Option<TrustLevel>>)
    ensures
        forall|i: int| 0 <= i < labels.len() && (#[trigger] labels[i]) is Some ==> trust_rank(labels[i]->0) <= trust_rank(derived_trust(labels)),
        (exists|i: int| 0 <= i < labels.len() && (#[trigger] labels[i]) is None) ==> derived_trust(labels) == TrustLevel::UntrustedExternal,
        labels.len() == 0 ==> derived_trust(labels) == TrustLevel::UntrustedExternal,
{
    lemma_fold_bounds(labels, TrustLevel::TrustedSystem);
}

/// The tier used for policy purposes, and how it was reached.
#[derive(Debug, Clone, Copy, PartialEq, Eq, Structural)]
pub struct Escalation {
    /// The catalog tier of the effect class.
    pub catalog_tier: Tier,
    /// The tier policy evaluates against.
    pub effective_tier: Tier,
    /// Whether the untrusted derivation raised the tier.
    pub escalated: bool,
    /// The derivation the escalation was computed from.
    pub trust: TrustLevel,
}

impl Escalation {
    /// Whether policy requires an approval receipt for this proposal (tier >= 3).
    pub fn requires_receipt(self) -> (r: bool)
        ensures
            r == (self.effective_tier@ >= 3),
    {
        self.effective_tier.get() >= 3
    }

    /// Whether a user rule may move this proposal to `always`: never on tier 4, never
    /// when escalated.
    pub fn allows_always(self) -> (r: bool)
        ensures
            r == (self.effective_tier@ < 4 && !self.escalated),
    {
        self.effective_tier.get() < 4 && !self.escalated
    }
}

/// Whether an untrusted derivation escalates a catalog tier.
pub open spec fn escalates(catalog: nat, trust: TrustLevel) -> bool {
    trust == TrustLevel::UntrustedExternal && catalog >= 2
}

/// The effective tier: one above the catalog tier (capped at 4) when escalated.
pub open spec fn escalated_tier(catalog: nat, trust: TrustLevel) -> nat {
    if escalates(catalog, trust) {
        if catalog + 1 > 4 {
            4
        } else {
            (catalog + 1) as nat
        }
    } else {
        catalog
    }
}

/// Escalate a proposal one tier when it derives from untrusted external content.
pub fn escalate(catalog_tier: Tier, trust: TrustLevel) -> (r: Escalation)
    ensures
        r.catalog_tier == catalog_tier,
        r.trust == trust,
        r.escalated == escalates(catalog_tier@, trust),
        r.effective_tier@ == escalated_tier(catalog_tier@, trust),
{
    let raw = catalog_tier.get();
    let escalated = trust.is_untrusted_external() && raw >= 2;
    let effective_tier = if escalated {
        let next = if raw + 1 > 4 { 4 } else { raw + 1 };
        match Tier::new(next) {
            Some(t) => t,
            None => catalog_tier,
        }
    } else {
        catalog_tier
    };
    Escalation { catalog_tier, effective_tier, escalated, trust }
}

/// Escalation never lowers a tier, raises it by at most one, and only for untrusted
/// derivations of tier 2 and above.
pub proof fn law_escalation_only_tightens(catalog: nat, trust: TrustLevel)
    requires
        catalog <= 4,
    ensures
        catalog <= escalated_tier(catalog, trust) <= catalog + 1,
        escalated_tier(catalog, trust) <= 4,
        trust != TrustLevel::UntrustedExternal ==> escalated_tier(catalog, trust) == catalog,
        catalog < 2 ==> escalated_tier(catalog, trust) == catalog,
        escalates(catalog, trust) ==> escalated_tier(catalog, trust) >= 3,
{
}

} // verus!
