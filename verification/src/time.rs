//! UTC instants: whole seconds since the Unix epoch plus a sub-second part, ordered
//! lexicographically, and their RFC 3339 rendering.

use vstd::prelude::*;

verus! {

/// The largest distance from the epoch, in seconds, that an instant may lie
/// (about 253,000 years), well inside the calendar range chrono represents.
pub const MAX_EPOCH_SECONDS: i64 = 8_000_000_000_000;

/// A UTC instant: `secs` since `1970-01-01T00:00:00Z` and `nanos` into that second.
#[derive(Debug, Clone, Copy, PartialEq, Eq, Hash, Structural)]
pub struct Timestamp {
    secs: i64,
    nanos: u32,
}

impl View for Timestamp {
    type V = (int, int);

    closed spec fn view(&self) -> (int, int) {
        (self.secs as int, self.nanos as int)
    }
}

/// Whether `(secs, nanos)` is a representable instant.
pub open spec fn valid_instant(secs: int, nanos: int) -> bool {
    -MAX_EPOCH_SECONDS <= secs <= MAX_EPOCH_SECONDS && 0 <= nanos < 1_000_000_000
}

/// Whether `a` is strictly earlier than `b`.
pub open spec fn earlier(a: (int, int), b: (int, int)) -> bool {
    a.0 < b.0 || (a.0 == b.0 && a.1 < b.1)
}

/// The minute of the UTC day an instant falls in, `0..1440`.
pub open spec fn minute_of_day_at(t: (int, int)) -> int {
    (t.0 % 86400) / 60
}

/// The RFC 3339 text chrono renders for the instant `(secs, nanos)`.
pub uninterp spec fn rfc3339_text(secs: int, nanos: int) -> Seq<char>;

impl Timestamp {
    #[verifier::type_invariant]
    spec fn inv(&self) -> bool {
        valid_instant(self.secs as int, self.nanos as int)
    }

    /// Build an instant; `None` outside the representable range or for `nanos >= 10^9`.
    pub fn new(secs: i64, nanos: u32) -> (r: Option<Timestamp>)
        ensures
            r is Some <==> valid_instant(secs as int, nanos as int),
            r matches Some(t) ==> t@ == (secs as int, nanos as int),
    {
        if -MAX_EPOCH_SECONDS <= secs && secs <= MAX_EPOCH_SECONDS && nanos < 1_000_000_000 {
            Some(Timestamp { secs, nanos })
        } else {
            None
        }
    }

    /// Whole seconds since the epoch.
    pub fn secs(&self) -> (r: i64)
        ensures
            r == self@.0,
            valid_instant(self@.0, self@.1),
    {
        proof {
            use_type_invariant(self);
        }
        self.secs
    }

    /// Nanoseconds into the second.
    pub fn nanos(&self) -> (r: u32)
        ensures
            r == self@.1,
    {
        self.nanos
    }

    /// Whether `self` is strictly earlier than `other`.
    pub fn is_before(&self, other: &Timestamp) -> (r: bool)
        ensures
            r == earlier(self@, other@),
    {
        self.secs < other.secs || (self.secs == other.secs && self.nanos < other.nanos)
    }

    /// The minute of the UTC day (`hour * 60 + minute`).
    pub fn minute_of_day(&self) -> (r: u32)
        ensures
            r == minute_of_day_at(self@),
            r < 1440,
    {
        let within = match self.secs.checked_rem_euclid(86400) {
            Some(v) => v,
            None => 0,
        };
        assert(0 <= within < 86400);
        (within / 60) as u32
    }

    /// The instant `seconds` later (earlier when negative); `None` when it leaves the
    /// representable range.
    pub fn plus_seconds(&self, seconds: i64) -> (r: Option<Timestamp>)
        ensures
            r is Some <==> valid_instant(self@.0 + seconds, self@.1),
            r matches Some(t) ==> t@ == (self@.0 + seconds, self@.1),
    {
        proof {
            use_type_invariant(self);
        }
        if seconds > 2 * MAX_EPOCH_SECONDS || seconds < -2 * MAX_EPOCH_SECONDS {
            return None;
        }
        Timestamp::new(self.secs + seconds, self.nanos)
    }
}

/// The RFC 3339 rendering of an instant (`DateTime::<Utc>::to_rfc3339`).
///
/// chrono's `DateTime::from_timestamp` represents every instant within
/// `MAX_EPOCH_SECONDS` of the epoch whose sub-second part is below one second, so the
/// conversion always succeeds here; the text itself is named, not spelled out.
#[verifier::external_body]
pub(crate) fn rfc3339(t: Timestamp) -> (r: String)
    ensures
        r@ == rfc3339_text(t@.0, t@.1),
{
    match chrono::DateTime::<chrono::Utc>::from_timestamp(t.secs, t.nanos) {
        Some(instant) => instant.to_rfc3339(),
        None => String::new(),
    }
}

} // verus!
