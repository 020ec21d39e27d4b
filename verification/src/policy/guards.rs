//! Data-class privacy guards and sequence guards.
//!
//! The privacy guard refuses to move a protected data class, or content derived from
//! external untrusted sources, to a destination outside the egress grant set. Sequence
//! guards encode ordering over durable facts: an approval is never used before it was
//! granted, and a settlement never precedes its reservation. A fact the context does not
//! carry counts as absent, which fails closed.

use vstd::prelude::*;
use crate::text::{chars_of, str_eq, owned};

verus! {

/// Whether `c` may appear in a data-class name (`[a-z0-9_.]`).
pub open spec fn is_class_char(c: char) -> bool {
    ('a' <= c && c <= 'z') || ('0' <= c && c <= '9') || c == '_' || c == '.'
}

/// Whether `s` is a valid data-class name.
pub open spec fn valid_class_name(s: Seq<char>) -> bool {
    s.len() > 0 && forall|i: int| 0 <= i < s.len() ==> is_class_char(#[trigger] s[i])
}

/// The canonical protected data-class names.
pub open spec fn is_protected_name(s: Seq<char>) -> bool {
    ||| s == "pii"@
    ||| s == "phi"@
    ||| s == "financial"@
    ||| s == "payment"@
    ||| s == "credential"@
    ||| s == "secret"@
    ||| s == "protected"@
    ||| s == "confidential"@
}

/// A validated data class (lowercase dotted identifier).
#[derive(Debug, Clone, PartialEq, Eq, Hash, PartialOrd, Ord)]
pub struct DataClass(String);

impl View for DataClass {
    type V = Seq<char>;

    closed spec fn view(&self) -> Seq<char> {
        self.0@
    }
}

impl DataClass {
    /// The canonical protected data classes.
    pub const PROTECTED: [&'static str; 8] = [
        "pii",
        "phi",
        "financial",
        "payment",
        "credential",
        "secret",
        "protected",
        "confidential",
    ];

    /// Validate and build a data class; the rejected value is returned on failure.
    pub fn parse(value: String) -> (r: Result<Self, String>)
        ensures
            r is Ok <==> valid_class_name(value@),
            r matches Ok(c) ==> c@ == value@,
            r matches Err(v) ==> v@ == value@,
    {
        let chars = chars_of(value.as_str());
        let mut valid = chars.len() > 0;
        let mut i: usize = 0;
        while i < chars.len()
            invariant
                chars@ == value@,
                i <= chars@.len(),
                valid == (chars@.len() > 0 && forall|j: int| 0 <= j < i ==> is_class_char(#[trigger] chars@[j])),
            decreases chars@.len() - i,
        {
            let c = chars[i];
            let ok = ('a' <= c && c <= 'z') || ('0' <= c && c <= '9') || c == '_' || c == '.';
            valid = valid && ok;
            i = i + 1;
        }
        if valid {
            Ok(DataClass(value))
        } else {
            Err(value)
        }
    }

    /// The canonical string.
    pub fn as_str(&self) -> (s: &str)
        ensures
            s@ == self@,
    {
        self.0.as_str()
    }

    /// Whether this class is protected from ungranted egress.
    pub fn is_protected(&self) -> (r: bool)
        ensures
            r == is_protected_name(self@),
    {
        let s = self.0.as_str();
        str_eq(s, "pii") || str_eq(s, "phi") || str_eq(s, "financial") || str_eq(s, "payment")
            || str_eq(s, "credential") || str_eq(s, "secret") || str_eq(s, "protected") || str_eq(
            s,
            "confidential",
        )
    }
}

/// A destination data could move to (kind `domain`, `connector`, `recipient`, `webhook`).
#[derive(Debug, Clone, PartialEq, Eq, Hash)]
pub struct EgressDestination {
    /// Destination kind.
    pub kind: String,
    /// Destination value.
    pub value: String,
}

impl EgressDestination {
    /// Build a destination.
    pub fn new(kind: &str, value: &str) -> (r: Self)
        ensures
            r.kind@ == kind@,
            r.value@ == value@,
    {
        EgressDestination { kind: owned(kind), value: owned(value) }
    }

    /// A host destination.
    pub fn domain(value: &str) -> (r: Self)
        ensures
            r.kind@ == "domain"@,
            r.value@ == value@,
    {
        Self::new("domain", value)
    }

    /// A connector destination.
    pub fn connector(value: &str) -> (r: Self)
        ensures
            r.kind@ == "connector"@,
            r.value@ == value@,
    {
        Self::new("connector", value)
    }
}

/// Whether one granted destination covers `d`: same kind, and `*` or the exact value.
pub open spec fn grant_covers(granted: EgressDestination, d: EgressDestination) -> bool {
    granted.kind@ == d.kind@ && (granted.value@ == "*"@ || granted.value@ == d.value@)
}

/// Whether a grant list covers `d`.
pub open spec fn grants_cover(grants: Seq<EgressDestination>, d: EgressDestination) -> bool {
    exists|i: int| 0 <= i < grants.len() && grant_covers(#[trigger] grants[i], d)
}

/// The destinations an actor is already granted egress to.
#[derive(Debug, Clone, Default, PartialEq, Eq)]
pub struct EgressGrantSet {
    destinations: Vec<EgressDestination>,
}

impl View for EgressGrantSet {
    type V = Seq<EgressDestination>;

    closed spec fn view(&self) -> Seq<EgressDestination> {
        self.destinations@
    }
}

impl EgressGrantSet {
    /// Build the grant set from resolved egress destinations.
    pub fn new(destinations: Vec<EgressDestination>) -> (r: Self)
        ensures
            r@ == destinations@,
    {
        EgressGrantSet { destinations }
    }

    /// An empty grant set; every protected movement is denied against it.
    pub fn empty() -> (r: Self)
        ensures
            r@ == Seq::<EgressDestination>::empty(),
    {
        EgressGrantSet { destinations: Vec::new() }
    }

    /// The granted destinations.
    pub fn destinations(&self) -> (r: &[EgressDestination])
        ensures
            r@ == self@,
    {
        self.destinations.as_slice()
    }

    /// Whether `destination` is inside the grant set.
    pub fn covers(&self, destination: &EgressDestination) -> (r: bool)
        ensures
            r == grants_cover(self@, *destination),
            forall|i: int|
                0 <= i < self@.len() && (#[trigger] self@[i]).kind@ == destination.kind@ && (self@[i].value@ == "*"@
                    || self@[i].value@ == destination.value@) ==> r,
    {
        proof {
            assert forall|i: int|
                0 <= i < self@.len() && (#[trigger] self@[i]).kind@ == destination.kind@ && (self@[i].value@ == "*"@
                    || self@[i].value@ == destination.value@) implies grants_cover(self@, *destination) by {
                assert(grant_covers(self@[i], *destination));
            }
        }
        let mut i: usize = 0;
        while i < self.destinations.len()
            invariant
                i <= self.destinations@.len(),
                forall|j: int| 0 <= j < i ==> !grant_covers(#[trigger] self.destinations@[j], *destination),
            decreases self.destinations@.len() - i,
        {
            let granted = &self.destinations[i];
            if granted.kind == destination.kind && (str_eq(granted.value.as_str(), "*") || granted.value == destination.value) {
                return true;
            }
            i = i + 1;
        }
        false
    }
}

/// A sequence requirement checked against durable facts.
#[derive(Debug, Clone, Copy, PartialEq, Eq, Hash, Structural)]
pub enum SequenceGuard {
    /// Every approval used must first have been granted.
    ApprovalGrantedBeforeUse,
    /// Every settled effect must first have been reserved.
    ReservationBeforeSettlement,
}

/// Whether `id` occurs in `ids` (compared by content).
pub open spec fn id_in(id: String, ids: Seq<String>) -> bool {
    exists|j: int| 0 <= j < ids.len() && (#[trigger] ids[j])@ == id@
}

/// Whether every id in `used` occurs in `available`.
pub open spec fn all_within(used: Seq<String>, available: Seq<String>) -> bool {
    forall|i: int| 0 <= i < used.len() ==> id_in(#[trigger] used[i], available)
}

/// Whether `guard` holds over the facts: each fact the guard orders (an approval used,
/// an effect settled) was preceded by its grant or reservation. A context that carries
/// none of the guard's facts (neither side of its ordering) fails closed.
pub open spec fn guard_holds(guard: SequenceGuard, context: SequenceContext) -> bool {
    match guard {
        SequenceGuard::ApprovalGrantedBeforeUse => (context.used_approval_ids@.len() > 0
            || context.granted_approval_ids@.len() > 0) && all_within(
            context.used_approval_ids@,
            context.granted_approval_ids@,
        ),
        SequenceGuard::ReservationBeforeSettlement => (context.settled_effect_ids@.len() > 0
            || context.reserved_effect_ids@.len() > 0) && all_within(
            context.settled_effect_ids@,
            context.reserved_effect_ids@,
        ),
    }
}

/// Whether `id` occurs in `ids`.
pub fn contains_id(ids: &Vec<String>, id: &String) -> (r: bool)
    ensures
        r == id_in(*id, ids@),
{
    let mut i: usize = 0;
    while i < ids.len()
        invariant
            i <= ids@.len(),
            forall|j: int| 0 <= j < i ==> (#[trigger] ids@[j])@ != id@,
        decreases ids@.len() - i,
    {
        if ids[i] == *id {
            return true;
        }
        i = i + 1;
    }
    false
}

/// Whether every id of `used` occurs in `available`.
pub fn all_ids_within(used: &Vec<String>, available: &Vec<String>) -> (r: bool)
    ensures
        r == all_within(used@, available@),
{
    let mut i: usize = 0;
    while i < used.len()
        invariant
            i <= used@.len(),
            forall|k: int| 0 <= k < i ==> id_in(#[trigger] used@[k], available@),
        decreases used@.len() - i,
    {
        if !contains_id(available, &used[i]) {
            return false;
        }
        i = i + 1;
    }
    true
}

impl SequenceGuard {
    /// The canonical wire name.
    pub fn as_str(self) -> (s: &'static str)
        ensures
            s@ == sequence_guard_name(self),
    {
        match self {
            SequenceGuard::ApprovalGrantedBeforeUse => "approval_granted_before_use",
            SequenceGuard::ReservationBeforeSettlement => "reservation_before_settlement",
        }
    }

    /// Whether the guard holds for `context`; it fails closed when the context carries
    /// none of the facts it orders.
    pub fn holds(self, context: &SequenceContext) -> (r: bool)
        ensures
            r == guard_holds(self, *context),
    {
        match self {
            SequenceGuard::ApprovalGrantedBeforeUse => (context.used_approval_ids.len() > 0
                || context.granted_approval_ids.len() > 0) && all_ids_within(
                &context.used_approval_ids,
                &context.granted_approval_ids,
            ),
            SequenceGuard::ReservationBeforeSettlement => (context.settled_effect_ids.len() > 0
                || context.reserved_effect_ids.len() > 0) && all_ids_within(
                &context.settled_effect_ids,
                &context.reserved_effect_ids,
            ),
        }
    }
}

/// The wire name of a sequence guard.
pub open spec fn sequence_guard_name(g: SequenceGuard) -> Seq<char> {
    match g {
        SequenceGuard::ApprovalGrantedBeforeUse => "approval_granted_before_use"@,
        SequenceGuard::ReservationBeforeSettlement => "reservation_before_settlement"@,
    }
}

/// Durable facts a sequence guard is checked against.
#[derive(Debug, Clone, Default, PartialEq, Eq)]
pub struct SequenceContext {
    /// Approvals whose receipt has been granted.
    pub granted_approval_ids: Vec<String>,
    /// Approvals a proposal would use.
    pub used_approval_ids: Vec<String>,
    /// Effects with a durable reservation.
    pub reserved_effect_ids: Vec<String>,
    /// Effects the proposal would settle.
    pub settled_effect_ids: Vec<String>,
}

impl SequenceContext {
    /// An empty context: every fact is absent, so every guard over it fails closed.
    pub fn empty() -> (r: Self)
        ensures
            r.granted_approval_ids@.len() == 0,
            r.used_approval_ids@.len() == 0,
            r.reserved_effect_ids@.len() == 0,
            r.settled_effect_ids@.len() == 0,
            forall|g: SequenceGuard| !#[trigger] guard_holds(g, r),
    {
        SequenceContext {
            granted_approval_ids: Vec::new(),
            used_approval_ids: Vec::new(),
            reserved_effect_ids: Vec::new(),
            settled_effect_ids: Vec::new(),
        }
    }
}

/// Why a privacy or sequence guard denied.
#[derive(Debug, Clone, Copy, PartialEq, Eq, Structural)]
pub enum GuardFailure {
    /// A protected data class would move outside the egress grant set.
    ProtectedEgressDenied,
    /// Untrusted external content would move to an ungranted destination.
    UntrustedEgressDenied,
    /// A sequence guard did not hold.
    SequenceViolation(SequenceGuard),
}

/// The canonical reason string of a guard failure.
pub open spec fn guard_failure_name(f: GuardFailure) -> Seq<char> {
    match f {
        GuardFailure::ProtectedEgressDenied => "privacy_protected_egress_denied"@,
        GuardFailure::UntrustedEgressDenied => "privacy_untrusted_egress_denied"@,
        GuardFailure::SequenceViolation(SequenceGuard::ApprovalGrantedBeforeUse) => "sequence_approval_not_granted"@,
        GuardFailure::SequenceViolation(SequenceGuard::ReservationBeforeSettlement) => "sequence_settlement_before_reservation"@,
    }
}

impl GuardFailure {
    /// The canonical reason string.
    pub fn as_str(self) -> (s: &'static str)
        ensures
            s@ == guard_failure_name(self),
    {
        match self {
            GuardFailure::ProtectedEgressDenied => "privacy_protected_egress_denied",
            GuardFailure::UntrustedEgressDenied => "privacy_untrusted_egress_denied",
            GuardFailure::SequenceViolation(SequenceGuard::ApprovalGrantedBeforeUse) => "sequence_approval_not_granted",
            GuardFailure::SequenceViolation(SequenceGuard::ReservationBeforeSettlement) => "sequence_settlement_before_reservation",
        }
    }
}

/// The result of a privacy or sequence guard.
#[derive(Debug, Clone, Copy, PartialEq, Eq, Structural)]
pub enum GuardOutcome {
    /// The guard permits the proposal.
    Permitted,
    /// The guard denies the proposal.
    Denied(GuardFailure),
}

impl GuardOutcome {
    /// Whether the guard permitted the proposal.
    pub fn is_permitted(self) -> (r: bool)
        ensures
            r == (self is Permitted),
    {
        match self {
            GuardOutcome::Permitted => true,
            GuardOutcome::Denied(_) => false,
        }
    }

    /// The typed failure, when the guard denied.
    pub fn failure(self) -> (r: Option<GuardFailure>)
        ensures
            r == (match self {
                GuardOutcome::Permitted => None,
                GuardOutcome::Denied(f) => Some(f),
            }),
    {
        match self {
            GuardOutcome::Permitted => None,
            GuardOutcome::Denied(failure) => Some(failure),
        }
    }
}

/// The privacy/egress guard input.
#[derive(Debug, Clone, Copy)]
pub struct PrivacyInputs<'a> {
    /// Data classes carried by the proposal.
    pub data_classes: &'a [DataClass],
    /// Destination the data would move to, when the effect moves data.
    pub destination: Option<&'a EgressDestination>,
    /// Destinations the actor is already granted egress to.
    pub egress_grants: &'a EgressGrantSet,
    /// Whether the proposal derives from untrusted external content.
    pub untrusted_origin: bool,
}

/// Whether some data class in `classes` is protected.
pub open spec fn any_protected(classes: Seq<DataClass>) -> bool {
    exists|i: int| 0 <= i < classes.len() && is_protected_name((#[trigger] classes[i])@)
}

/// The privacy guard's decision.
pub open spec fn privacy_outcome(
    classes: Seq<DataClass>,
    destination: Option<EgressDestination>,
    grants: Seq<EgressDestination>,
    untrusted_origin: bool,
) -> GuardOutcome {
    match destination {
        None => GuardOutcome::Permitted,
        Some(d) => if grants_cover(grants, d) {
            GuardOutcome::Permitted
        } else if any_protected(classes) {
            GuardOutcome::Denied(GuardFailure::ProtectedEgressDenied)
        } else if untrusted_origin {
            GuardOutcome::Denied(GuardFailure::UntrustedEgressDenied)
        } else {
            GuardOutcome::Permitted
        },
    }
}

/// The destination of a privacy input, by value.
pub open spec fn destination_of(d: Option<&EgressDestination>) -> Option<EgressDestination> {
    match d {
        Some(x) => Some(*x),
        None => None,
    }
}

/// Deny protected-class or untrusted data movement outside the egress grant set.
pub fn check_privacy(inputs: PrivacyInputs<'_>) -> (r: GuardOutcome)
    ensures
        r == privacy_outcome(inputs.data_classes@, destination_of(inputs.destination), inputs.egress_grants@, inputs.untrusted_origin),
{
    let destination = match inputs.destination {
        None => return GuardOutcome::Permitted,
        Some(d) => d,
    };
    if inputs.egress_grants.covers(destination) {
        return GuardOutcome::Permitted;
    }
    let mut i: usize = 0;
    while i < inputs.data_classes.len()
        invariant
            i <= inputs.data_classes@.len(),
            destination_of(inputs.destination) == Some(*destination),
            !grants_cover(inputs.egress_grants@, *destination),
            forall|j: int| 0 <= j < i ==> !is_protected_name((#[trigger] inputs.data_classes@[j])@),
        decreases inputs.data_classes@.len() - i,
    {
        if inputs.data_classes[i].is_protected() {
            proof {
                assert(is_protected_name(inputs.data_classes@[i as int]@));
                assert(any_protected(inputs.data_classes@));
            }
            return GuardOutcome::Denied(GuardFailure::ProtectedEgressDenied);
        }
        i = i + 1;
    }
    if inputs.untrusted_origin {
        return GuardOutcome::Denied(GuardFailure::UntrustedEgressDenied);
    }
    GuardOutcome::Permitted
}

/// The first guard of `guards` that fails, in order.
pub open spec fn sequence_outcome(guards: Seq<SequenceGuard>, context: SequenceContext) -> GuardOutcome
    decreases guards.len(),
{
    if guards.len() == 0 {
        GuardOutcome::Permitted
    } else if !guard_holds(guards[0], context) {
        GuardOutcome::Denied(GuardFailure::SequenceViolation(guards[0]))
    } else {
        sequence_outcome(guards.drop_first(), context)
    }
}

/// Deny a proposal whose sequence guards do not hold; the first failing guard is reported.
pub fn check_sequence(guards: &[SequenceGuard], context: &SequenceContext) -> (r: GuardOutcome)
    ensures
        r == sequence_outcome(guards@, *context),
{
    let mut i: usize = 0;
    proof {
        assert(guards@.skip(0) =~= guards@);
    }
    while i < guards.len()
        invariant
            i <= guards@.len(),
            sequence_outcome(guards@, *context) == sequence_outcome(guards@.skip(i as int), *context),
        decreases guards@.len() - i,
    {
        let guard = guards[i];
        proof {
            assert(guards@.skip(i as int)[0] == guard);
            assert(guards@.skip(i as int).drop_first() =~= guards@.skip(i + 1));
        }
        if !guard.holds(context) {
            return GuardOutcome::Denied(GuardFailure::SequenceViolation(guard));
        }
        i = i + 1;
    }
    GuardOutcome::Permitted
}

/// A grant covers by kind: a granted destination of the same kind whose value is `*`
/// or the destination's own value lets any data move there; without a granted
/// destination of that kind, protected data is refused. No other grant covers it.
pub proof fn law_egress_grants_cover_by_kind(
    classes: Seq<DataClass>,
    d: EgressDestination,
    grants: Seq<EgressDestination>,
    untrusted_origin: bool,
    i: int,
)
    ensures
        0 <= i < grants.len() && grants[i].kind@ == d.kind@ && grants[i].value@ == "*"@ ==> privacy_outcome(
            classes,
            Some(d),
            grants,
            untrusted_origin,
        ) == GuardOutcome::Permitted,
        0 <= i < grants.len() && grants[i].kind@ == d.kind@ && grants[i].value@ == d.value@ ==> privacy_outcome(
            classes,
            Some(d),
            grants,
            untrusted_origin,
        ) == GuardOutcome::Permitted,
        (forall|k: int| 0 <= k < grants.len() ==> (#[trigger] grants[k]).kind@ != d.kind@) && any_protected(classes)
            ==> privacy_outcome(classes, Some(d), grants, untrusted_origin) == GuardOutcome::Denied(
            GuardFailure::ProtectedEgressDenied,
        ),
        (forall|k: int| 0 <= k < grants.len() ==> (#[trigger] grants[k]).value@ != "*"@ && grants[k].value@ != d.value@)
            && any_protected(classes) ==> privacy_outcome(classes, Some(d), grants, untrusted_origin)
            == GuardOutcome::Denied(GuardFailure::ProtectedEgressDenied),
{
    if 0 <= i < grants.len() && grants[i].kind@ == d.kind@ && (grants[i].value@ == "*"@ || grants[i].value@ == d.value@) {
        assert(grant_covers(grants[i], d));
    }
}

} // verus!
