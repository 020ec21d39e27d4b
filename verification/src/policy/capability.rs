//! The capability vocabulary policy decides over: consequence tiers, effect classes,
//! resource selectors and the decision values of policy and user rules.

use vstd::prelude::*;
use crate::text::{chars_of, str_eq, owned};

verus! {

/// A consequence tier, `0` (harmless) to `4` (irreversible or regulated).
#[derive(Debug, Clone, Copy, PartialEq, Eq, Hash, Structural)]
pub struct Tier {
    value: u8,
}

impl View for Tier {
    type V = nat;

    closed spec fn view(&self) -> nat {
        self.value as nat
    }
}

impl Tier {
    /// Every tier lies in `0..=4`.
    #[verifier::type_invariant]
    spec fn inv(&self) -> bool {
        self.value <= 4
    }

    /// Build a tier; values above `4` are refused.
    pub fn new(value: u8) -> (r: Option<Tier>)
        ensures
            r is Some <==> value <= 4,
            r matches Some(t) ==> t@ == value,
    {
        if value <= 4 {
            Some(Tier { value })
        } else {
            None
        }
    }

    /// The tier with numeric value `n`.
    pub closed spec fn from_nat(n: nat) -> Tier {
        Tier { value: n as u8 }
    }

    /// A tier is determined by its numeric value.
    pub proof fn lemma_from_nat(t: Tier, n: nat)
        requires
            n <= 4,
        ensures
            Tier::from_nat(n)@ == n,
            t@ == n ==> t == Tier::from_nat(n),
    {
    }

    /// The numeric tier.
    pub fn get(self) -> (r: u8)
        ensures
            r == self@,
            r <= 4,
    {
        proof {
            use_type_invariant(&self);
        }
        self.value
    }
}

/// Whether `c` may appear in an effect-class or selector-kind name.
pub open spec fn is_name_char(c: char) -> bool {
    ('a' <= c && c <= 'z') || ('0' <= c && c <= '9') || c == '_' || c == '.'
}

/// A canonical effect-class name: lowercase dotted, not starting or ending with `.`.
pub open spec fn valid_effect_class(s: Seq<char>) -> bool {
    &&& s.len() > 0
    &&& s[0] != '.'
    &&& s[s.len() - 1] != '.'
    &&& forall|i: int| 0 <= i < s.len() ==> is_name_char(#[trigger] s[i])
}

/// Whether every character of `s` is a name character.
fn all_name_chars(s: &Vec<char>) -> (r: bool)
    ensures
        r == forall|i: int| 0 <= i < s@.len() ==> is_name_char(#[trigger] s@[i]),
{
    let mut i: usize = 0;
    while i < s.len()
        invariant
            i <= s@.len(),
            forall|j: int| 0 <= j < i ==> is_name_char(#[trigger] s@[j]),
        decreases s@.len() - i,
    {
        let c = s[i];
        if !(('a' <= c && c <= 'z') || ('0' <= c && c <= '9') || c == '_' || c == '.') {
            return false;
        }
        i = i + 1;
    }
    true
}

/// An effect class such as `message.send` or `payment.execute`.
#[derive(Debug, Clone, PartialEq, Eq, Hash)]
pub struct EffectClass(String);

impl View for EffectClass {
    type V = Seq<char>;

    closed spec fn view(&self) -> Seq<char> {
        self.0@
    }
}

impl EffectClass {
    /// Validate an effect-class name; `None` when it is not canonical.
    pub fn parse(value: &str) -> (r: Option<EffectClass>)
        ensures
            r is Some <==> valid_effect_class(value@),
            r matches Some(c) ==> c@ == value@,
    {
        let chars = chars_of(value);
        if chars.len() == 0 || chars[0] == '.' || chars[chars.len() - 1] == '.' {
            return None;
        }
        if !all_name_chars(&chars) {
            return None;
        }
        Some(EffectClass(owned(value)))
    }

    /// The canonical name.
    pub fn as_str(&self) -> (s: &str)
        ensures
            s@ == self@,
    {
        self.0.as_str()
    }

    /// Whether two effect classes are the same class.
    pub fn same(&self, other: &EffectClass) -> (r: bool)
        ensures
            r == (self@ == other@),
    {
        self.0 == other.0
    }
}

/// Whether two selectors address an overlapping region: same kind, and one of them is
/// the wildcard `*` or both name the same value.
pub open spec fn selectors_overlap(a: ResourceSelector, b: ResourceSelector) -> bool {
    a.kind@ == b.kind@ && (a.selector@ == "*"@ || b.selector@ == "*"@ || a.selector@ == b.selector@)
}

/// A resource region: a kind (`domain`, `connector`, ...) and a selector value or `*`.
#[derive(Debug, Clone, PartialEq, Eq, Hash)]
pub struct ResourceSelector {
    /// Resource kind.
    pub kind: String,
    /// Selector value, `*` for every resource of the kind.
    pub selector: String,
}

impl ResourceSelector {
    /// Build a selector from its parts; the kind and selector must be non-empty.
    pub fn from_parts(kind: &str, selector: &str) -> (r: Option<ResourceSelector>)
        ensures
            r is Some <==> (kind@.len() > 0 && selector@.len() > 0),
            r matches Some(s) ==> s.kind@ == kind@ && s.selector@ == selector@,
    {
        let k = chars_of(kind);
        let v = chars_of(selector);
        if k.len() == 0 || v.len() == 0 {
            return None;
        }
        Some(ResourceSelector { kind: owned(kind), selector: owned(selector) })
    }

    /// Whether the two selectors address an overlapping region.
    pub fn overlaps(&self, other: &ResourceSelector) -> (r: bool)
        ensures
            r == selectors_overlap(*self, *other),
    {
        self.kind == other.kind && (str_eq(self.selector.as_str(), "*") || str_eq(
            other.selector.as_str(),
            "*",
        ) || self.selector == other.selector)
    }
}

/// A policy rule's decision.
#[derive(Debug, Clone, Copy, PartialEq, Eq, Hash, Structural)]
pub enum PolicyDecision {
    /// Permit without a receipt.
    Allow,
    /// Require an approval receipt.
    Ask,
    /// Refuse.
    Deny,
}

/// A user rule's decision.
#[derive(Debug, Clone, Copy, PartialEq, Eq, Hash, Structural)]
pub enum UserRuleDecision {
    /// Always ask.
    Ask,
    /// Standing permission.
    Always,
    /// Never permit.
    Never,
}

/// The outcome of a policy evaluation.
#[derive(Debug, Clone, Copy, PartialEq, Eq, Hash, Structural)]
pub enum Decision {
    /// Dispatch may proceed without a receipt.
    Allow,
    /// An approval receipt is required.
    Ask,
    /// The proposal is refused.
    Deny,
}

} // verus!
