//! Budget limits, consumption and the inheritance rule.
//!
//! Pure data and pure rules: building a meter set from stored entries, computing what
//! remains, deciding whether a charge fits, and narrowing a child's request to what its
//! parent has left.

use vstd::prelude::*;
use crate::text::{str_eq, owned, quoted, debug_quoted};
use crate::runtime::budgets::BudgetError;

verus! {

/// One metered dimension of a budget.
#[derive(Debug, Clone, Copy, PartialEq, Eq, PartialOrd, Ord, Hash, Structural)]
pub enum Meter {
    /// Model input plus output tokens.
    Tokens,
    /// Cost in minor currency units.
    CostMinorUnits,
    /// Wall-clock time.
    WallTimeMs,
    /// Tool calls.
    ToolCalls,
    /// Concurrent runs.
    Concurrency,
    /// Machine minutes on execution targets.
    MachineMinutes,
    /// Steps recorded by the turn loop.
    MaxSteps,
}

/// The stored spelling of a meter.
pub open spec fn meter_name(m: Meter) -> Seq<char> {
    match m {
        Meter::Tokens => "tokens"@,
        Meter::CostMinorUnits => "cost_minor_units"@,
        Meter::WallTimeMs => "wall_time_ms"@,
        Meter::ToolCalls => "tool_calls"@,
        Meter::Concurrency => "concurrency"@,
        Meter::MachineMinutes => "machine_minutes"@,
        Meter::MaxSteps => "max_steps"@,
    }
}

/// Every meter, in canonical order.
pub open spec fn all_meters() -> Seq<Meter> {
    seq![
        Meter::Tokens,
        Meter::CostMinorUnits,
        Meter::WallTimeMs,
        Meter::ToolCalls,
        Meter::Concurrency,
        Meter::MachineMinutes,
        Meter::MaxSteps,
    ]
}

impl Meter {
    /// Every meter, in canonical order.
    pub const ALL: [Meter; 7] = [
        Meter::Tokens,
        Meter::CostMinorUnits,
        Meter::WallTimeMs,
        Meter::ToolCalls,
        Meter::Concurrency,
        Meter::MachineMinutes,
        Meter::MaxSteps,
    ];

    /// The stored spelling of this meter.
    pub fn as_str(self) -> (s: &'static str)
        ensures
            s@ == meter_name(self),
    {
        match self {
            Meter::Tokens => "tokens",
            Meter::CostMinorUnits => "cost_minor_units",
            Meter::WallTimeMs => "wall_time_ms",
            Meter::ToolCalls => "tool_calls",
            Meter::Concurrency => "concurrency",
            Meter::MachineMinutes => "machine_minutes",
            Meter::MaxSteps => "max_steps",
        }
    }

    /// Parse the stored spelling; an unknown key is refused with a message naming it, so
    /// a typo in a budget cannot be ignored.
    pub fn parse(value: &str) -> (r: Result<Meter, String>)
        ensures
            r matches Ok(m) ==> meter_name(m) == value@,
            r is Err ==> forall|m: Meter| meter_name(m) != value@,
            r matches Err(msg) ==> msg@ == debug_quoted(value@) + " is not a budget meter"@,
    {
        if str_eq(value, "tokens") {
            Ok(Meter::Tokens)
        } else if str_eq(value, "cost_minor_units") {
            Ok(Meter::CostMinorUnits)
        } else if str_eq(value, "wall_time_ms") {
            Ok(Meter::WallTimeMs)
        } else if str_eq(value, "tool_calls") {
            Ok(Meter::ToolCalls)
        } else if str_eq(value, "concurrency") {
            Ok(Meter::Concurrency)
        } else if str_eq(value, "machine_minutes") {
            Ok(Meter::MachineMinutes)
        } else if str_eq(value, "max_steps") {
            Ok(Meter::MaxSteps)
        } else {
            proof {
                assert forall|m: Meter| meter_name(m) != value@ by {
                    match m {
                        Meter::Tokens => {},
                        Meter::CostMinorUnits => {},
                        Meter::WallTimeMs => {},
                        Meter::ToolCalls => {},
                        Meter::Concurrency => {},
                        Meter::MachineMinutes => {},
                        Meter::MaxSteps => {},
                    }
                }
            }
            let mut msg = quoted(value);
            msg.append(" is not a budget meter");
            Err(msg)
        }
    }
}

/// No meter occurs twice.
pub open spec fn unique_meters(s: Seq<(Meter, u64)>) -> bool {
    forall|i: int, j: int| 0 <= i < j < s.len() ==> (#[trigger] s[i]).0 != (#[trigger] s[j]).0
}

/// Whether meter `m` is set.
pub open spec fn has_meter(s: Seq<(Meter, u64)>, m: Meter) -> bool {
    exists|i: int| 0 <= i < s.len() && (#[trigger] s[i]).0 == m
}

/// The value of meter `m`; `0` when it is not set.
pub open spec fn meter_value(s: Seq<(Meter, u64)>, m: Meter) -> u64 {
    if has_meter(s, m) {
        s[choose|i: int| 0 <= i < s.len() && (#[trigger] s[i]).0 == m].1
    } else {
        0
    }
}

/// The place of a meter in the canonical order.
pub open spec fn meter_index(m: Meter) -> int {
    match m {
        Meter::Tokens => 0,
        Meter::CostMinorUnits => 1,
        Meter::WallTimeMs => 2,
        Meter::ToolCalls => 3,
        Meter::Concurrency => 4,
        Meter::MachineMinutes => 5,
        Meter::MaxSteps => 6,
    }
}

/// The entries are in canonical meter order, each meter at most once.
pub open spec fn canonical(s: Seq<(Meter, u64)>) -> bool {
    forall|i: int, j: int| 0 <= i < j < s.len() ==> meter_index((#[trigger] s[i]).0) < meter_index(
        (#[trigger] s[j]).0,
    )
}

/// The place of a meter in the canonical order.
fn meter_position(m: Meter) -> (r: usize)
    ensures
        r == meter_index(m),
{
    match m {
        Meter::Tokens => 0,
        Meter::CostMinorUnits => 1,
        Meter::WallTimeMs => 2,
        Meter::ToolCalls => 3,
        Meter::Concurrency => 4,
        Meter::MachineMinutes => 5,
        Meter::MaxSteps => 6,
    }
}

/// Whether `p` is where meter `m` belongs among the entries: after every meter that comes
/// before it in canonical order and before every meter that comes after it.
pub open spec fn insert_position(s: Seq<(Meter, u64)>, m: Meter, p: int) -> bool {
    &&& 0 <= p <= s.len()
    &&& forall|i: int| 0 <= i < p ==> meter_index((#[trigger] s[i]).0) < meter_index(m)
    &&& forall|i: int| p <= i < s.len() ==> meter_index((#[trigger] s[i]).0) > meter_index(m)
}

/// The entries after setting meter `m` to `v`: in place when it is set, inserted at its
/// canonical place when not.
pub open spec fn set_entry(s: Seq<(Meter, u64)>, m: Meter, v: u64) -> Seq<(Meter, u64)> {
    if has_meter(s, m) {
        s.update(choose|i: int| 0 <= i < s.len() && (#[trigger] s[i]).0 == m, (m, v))
    } else {
        s.insert(choose|p: int| insert_position(s, m, p), (m, v))
    }
}

/// Canonical entries hold no meter twice.
pub proof fn lemma_canonical_unique(s: Seq<(Meter, u64)>)
    requires
        canonical(s),
    ensures
        unique_meters(s),
{
    assert forall|i: int, j: int| 0 <= i < j < s.len() implies (#[trigger] s[i]).0 != (#[trigger] s[j]).0 by {
        assert(meter_index(s[i].0) < meter_index(s[j].0));
    }
}

/// A place for an absent meter exists in canonical entries, and there is only one.
pub proof fn lemma_insert_position(s: Seq<(Meter, u64)>, m: Meter, p: int)
    requires
        canonical(s),
        insert_position(s, m, p),
    ensures
        (choose|q: int| insert_position(s, m, q)) == p,
{
    let q = choose|q: int| insert_position(s, m, q);
    assert(insert_position(s, m, q));
    if q < p {
        assert(meter_index(s[q].0) > meter_index(m));
        assert(meter_index(s[q].0) < meter_index(m));
    } else if q > p {
        assert(meter_index(s[p].0) > meter_index(m));
        assert(meter_index(s[p].0) < meter_index(m));
    }
}

/// In a set without repeats, the entry of a meter carries its value.
pub proof fn lemma_value_at(s: Seq<(Meter, u64)>, i: int)
    requires
        unique_meters(s),
        0 <= i < s.len(),
    ensures
        has_meter(s, s[i].0),
        meter_value(s, s[i].0) == s[i].1,
        (choose|k: int| 0 <= k < s.len() && (#[trigger] s[k]).0 == s[i].0) == i,
{
    let k = choose|k: int| 0 <= k < s.len() && (#[trigger] s[k]).0 == s[i].0;
    if k < i {
        assert(s[k].0 != s[i].0);
    } else if k > i {
        assert(s[i].0 != s[k].0);
    }
}

/// Meters with the same canonical place are the same meter.
pub proof fn lemma_meter_index_injective(a: Meter, b: Meter)
    ensures
        meter_index(a) == meter_index(b) ==> a == b,
        0 <= meter_index(a) < 7,
{
    match a {
        Meter::Tokens => {},
        Meter::CostMinorUnits => {},
        Meter::WallTimeMs => {},
        Meter::ToolCalls => {},
        Meter::Concurrency => {},
        Meter::MachineMinutes => {},
        Meter::MaxSteps => {},
    }
    match b {
        Meter::Tokens => {},
        Meter::CostMinorUnits => {},
        Meter::WallTimeMs => {},
        Meter::ToolCalls => {},
        Meter::Concurrency => {},
        Meter::MachineMinutes => {},
        Meter::MaxSteps => {},
    }
}

/// Scanning canonical entries from `p` finds the place of an absent meter.
proof fn lemma_scan_position(s: Seq<(Meter, u64)>, m: Meter, p: int) -> (q: int)
    requires
        canonical(s),
        !has_meter(s, m),
        0 <= p <= s.len(),
        forall|i: int| 0 <= i < p ==> meter_index((#[trigger] s[i]).0) < meter_index(m),
    ensures
        insert_position(s, m, q),
    decreases s.len() - p,
{
    if p < s.len() && meter_index(s[p].0) < meter_index(m) {
        lemma_scan_position(s, m, p + 1)
    } else {
        assert forall|i: int| p <= i < s.len() implies meter_index((#[trigger] s[i]).0) > meter_index(m) by {
            lemma_meter_index_injective(s[i].0, m);
            lemma_meter_index_injective(s[p].0, m);
            if i > p {
                assert(meter_index(s[p].0) < meter_index(s[i].0));
            }
        }
        p
    }
}

/// Setting a meter keeps the entries canonical, sets that meter and leaves the others.
pub proof fn lemma_set_entry(s: Seq<(Meter, u64)>, m: Meter, v: u64)
    requires
        canonical(s),
    ensures
        canonical(set_entry(s, m, v)),
        unique_meters(set_entry(s, m, v)),
        forall|x: Meter| #[trigger] has_meter(set_entry(s, m, v), x) == (has_meter(s, x) || x == m),
        forall|x: Meter| #[trigger] meter_value(set_entry(s, m, v), x) == if x == m {
            v
        } else {
            meter_value(s, x)
        },
{
    lemma_canonical_unique(s);
    let t = set_entry(s, m, v);
    if has_meter(s, m) {
        let k = choose|i: int| 0 <= i < s.len() && (#[trigger] s[i]).0 == m;
        assert forall|i: int, j: int| 0 <= i < j < t.len() implies meter_index((#[trigger] t[i]).0) < meter_index(
            (#[trigger] t[j]).0,
        ) by {
            assert(meter_index(s[i].0) < meter_index(s[j].0));
        }
        lemma_canonical_unique(t);
        assert forall|x: Meter| #[trigger] has_meter(t, x) == (has_meter(s, x) || x == m) by {
            if has_meter(s, x) {
                let i = choose|i: int| 0 <= i < s.len() && (#[trigger] s[i]).0 == x;
                assert(t[i].0 == x);
            }
            if has_meter(t, x) {
                let i = choose|i: int| 0 <= i < t.len() && (#[trigger] t[i]).0 == x;
                if i != k {
                    assert(s[i].0 == x);
                }
            }
            assert(t[k].0 == m);
        }
        assert forall|x: Meter| #[trigger] meter_value(t, x) == if x == m {
            v
        } else {
            meter_value(s, x)
        } by {
            assert(t[k].0 == m);
            lemma_value_at(t, k);
            if x != m && has_meter(s, x) {
                let i = choose|i: int| 0 <= i < s.len() && (#[trigger] s[i]).0 == x;
                lemma_value_at(s, i);
                assert(t[i] == s[i]);
                lemma_value_at(t, i);
            }
        }
    } else {
        let p = lemma_scan_position(s, m, 0);
        assert(insert_position(s, m, p));
        lemma_insert_position(s, m, p);
        s.insert_ensures(p, (m, v));
        assert(t == s.insert(p, (m, v)));
        assert forall|i: int| 0 <= i < t.len() implies #[trigger] t[i] == if i < p {
            s[i]
        } else if i == p {
            (m, v)
        } else {
            s[i - 1]
        } by {
            if i > p {
                assert(s.insert(p, (m, v))[(i - 1) + 1] == s[i - 1]);
            }
        }
        assert forall|i: int, j: int| 0 <= i < j < t.len() implies meter_index((#[trigger] t[i]).0) < meter_index(
            (#[trigger] t[j]).0,
        ) by {
            if i < p && j < p {
                assert(meter_index(s[i].0) < meter_index(s[j].0));
            } else if i < p && j > p {
                assert(meter_index(s[i].0) < meter_index(m));
                assert(meter_index(s[j - 1].0) > meter_index(m));
            } else if i > p {
                assert(meter_index(s[i - 1].0) < meter_index(s[j - 1].0));
            } else if i == p && j > p {
                assert(meter_index(s[j - 1].0) > meter_index(m));
            } else {
                assert(meter_index(s[i].0) < meter_index(m));
            }
        }
        lemma_canonical_unique(t);
        assert(t[p].0 == m);
        assert forall|x: Meter| #[trigger] has_meter(t, x) == (has_meter(s, x) || x == m) by {
            if has_meter(s, x) {
                let i = choose|i: int| 0 <= i < s.len() && (#[trigger] s[i]).0 == x;
                if i < p {
                    assert(t[i].0 == x);
                } else {
                    assert(t[i + 1].0 == x);
                }
            }
            if has_meter(t, x) {
                let i = choose|i: int| 0 <= i < t.len() && (#[trigger] t[i]).0 == x;
                if i < p {
                    assert(s[i].0 == x);
                } else if i > p {
                    assert(s[i - 1].0 == x);
                }
            }
        }
        assert forall|x: Meter| #[trigger] meter_value(t, x) == if x == m {
            v
        } else {
            meter_value(s, x)
        } by {
            lemma_value_at(t, p);
            if x != m && has_meter(s, x) {
                let i = choose|i: int| 0 <= i < s.len() && (#[trigger] s[i]).0 == x;
                lemma_value_at(s, i);
                if i < p {
                    lemma_value_at(t, i);
                } else {
                    assert(t[i + 1] == s[i]);
                    lemma_value_at(t, i + 1);
                }
            }
        }
    }
}

/// A set of limits, or a set of consumed amounts. An absent meter is unbounded (for
/// limits) or zero (for consumption).
#[derive(Debug, PartialEq, Eq)]
pub struct MeterUsage {
    entries: Vec<(Meter, u64)>,
}

impl View for MeterUsage {
    type V = Seq<(Meter, u64)>;

    closed spec fn view(&self) -> Seq<(Meter, u64)> {
        self.entries@
    }
}

impl Clone for MeterUsage {
    /// The same entries, in the same order.
    fn clone(&self) -> (r: MeterUsage)
        ensures
            r@ == self@,
    {
        proof {
            use_type_invariant(self);
        }
        let mut entries: Vec<(Meter, u64)> = Vec::new();
        let mut i: usize = 0;
        while i < self.entries.len()
            invariant
                i <= self.entries@.len(),
                entries@ == self.entries@.take(i as int),
            decreases self.entries@.len() - i,
        {
            entries.push(self.entries[i]);
            proof {
                assert(self.entries@.take(i + 1) =~= self.entries@.take(i as int).push(self.entries@[i as int]));
            }
            i = i + 1;
        }
        proof {
            assert(self.entries@.take(self.entries@.len() as int) =~= self.entries@);
        }
        MeterUsage { entries }
    }
}

impl Default for MeterUsage {
    /// An empty set.
    fn default() -> (r: MeterUsage)
        ensures
            r@ == Seq::<(Meter, u64)>::empty(),
    {
        MeterUsage { entries: Vec::new() }
    }
}

impl MeterUsage {
    /// The entries are in canonical meter order, no meter set twice.
    #[verifier::type_invariant]
    spec fn inv(&self) -> bool {
        canonical(self.entries@)
    }

    /// An empty usage set.
    pub fn new() -> (r: MeterUsage)
        ensures
            r@ == Seq::<(Meter, u64)>::empty(),
    {
        MeterUsage { entries: Vec::new() }
    }

    /// Set one meter: in place when it is set, at its canonical place otherwise.
    pub fn set(&mut self, meter: Meter, value: u64)
        ensures
            final(self)@ == set_entry(old(self)@, meter, value),
            canonical(final(self)@),
            forall|x: Meter| #[trigger] has_meter(final(self)@, x) == (has_meter(old(self)@, x) || x == meter),
            forall|x: Meter| #[trigger] meter_value(final(self)@, x) == if x == meter {
                value
            } else {
                meter_value(old(self)@, x)
            },
    {
        proof {
            use_type_invariant(&*self);
            lemma_set_entry(self.entries@, meter, value);
            lemma_canonical_unique(self.entries@);
        }
        let ghost start = self.entries@;
        let target = meter_position(meter);
        let mut i: usize = 0;
        while i < self.entries.len() && meter_position(self.entries[i].0) < target
            invariant
                i <= self.entries@.len(),
                self.entries@ == start,
                start == old(self)@,
                target == meter_index(meter),
                canonical(start),
                unique_meters(start),
                forall|j: int| 0 <= j < i ==> meter_index((#[trigger] self.entries@[j]).0) < meter_index(meter),
            decreases self.entries@.len() - i,
        {
            i = i + 1;
        }
        if i < self.entries.len() && self.entries[i].0 == meter {
            proof {
                lemma_value_at(self.entries@, i as int);
            }
            let mut entries = Vec::new();
            std::mem::swap(&mut entries, &mut self.entries);
            entries.set(i, (meter, value));
            proof {
                assert(entries@ == set_entry(start, meter, value));
                lemma_set_entry(start, meter, value);
            }
            self.entries = entries;
            return;
        }
        proof {
            assert forall|j: int| i <= j < start.len() implies meter_index((#[trigger] start[j]).0) > meter_index(
                meter,
            ) by {
                lemma_meter_index_injective(start[i as int].0, meter);
                if j > i {
                    assert(meter_index(start[i as int].0) < meter_index(start[j].0));
                }
            }
            assert(!has_meter(start, meter)) by {
                if has_meter(start, meter) {
                    let k = choose|k: int| 0 <= k < start.len() && (#[trigger] start[k]).0 == meter;
                    if k >= i {
                        assert(meter_index(start[k].0) > meter_index(meter));
                    }
                }
            }
            assert(insert_position(start, meter, i as int));
            lemma_insert_position(start, meter, i as int);
        }
        let mut entries = Vec::new();
        std::mem::swap(&mut entries, &mut self.entries);
        entries.insert(i, (meter, value));
        proof {
            assert(entries@ == set_entry(start, meter, value));
            lemma_set_entry(start, meter, value);
        }
        self.entries = entries;
    }

    /// The value of one meter; `0` when it is not set.
    pub fn get(&self, meter: Meter) -> (r: u64)
        ensures
            r == meter_value(self@, meter),
    {
        proof {
            use_type_invariant(self);
            lemma_canonical_unique(self.entries@);
        }
        let mut i: usize = 0;
        while i < self.entries.len()
            invariant
                i <= self.entries@.len(),
                unique_meters(self.entries@),
                forall|j: int| 0 <= j < i ==> (#[trigger] self.entries@[j]).0 != meter,
            decreases self.entries@.len() - i,
        {
            if self.entries[i].0 == meter {
                proof {
                    lemma_value_at(self.entries@, i as int);
                }
                return self.entries[i].1;
            }
            i = i + 1;
        }
        0
    }

    /// Whether the meter is set at all.
    pub fn has(&self, meter: Meter) -> (r: bool)
        ensures
            r == has_meter(self@, meter),
    {
        let mut i: usize = 0;
        while i < self.entries.len()
            invariant
                i <= self.entries@.len(),
                forall|j: int| 0 <= j < i ==> (#[trigger] self.entries@[j]).0 != meter,
            decreases self.entries@.len() - i,
        {
            if self.entries[i].0 == meter {
                return true;
            }
            i = i + 1;
        }
        false
    }

    /// The entries, in canonical meter order.
    pub fn entries(&self) -> (r: &[(Meter, u64)])
        ensures
            r@ == self@,
            canonical(r@),
            unique_meters(r@),
    {
        proof {
            use_type_invariant(self);
            lemma_canonical_unique(self.entries@);
        }
        self.entries.as_slice()
    }

    /// Build a set from the stored `(key, amount)` entries of a JSON object; `amount` is
    /// `None` where the stored value is not a non-negative integer. Every key must be a
    /// meter; then the set is built in canonical order, so two stored sets that describe
    /// the same usage give the same set whatever order their keys were stored in.
    pub fn from_entries(budget_id: &str, stored: &Vec<(String, Option<u64>)>) -> (r: Result<
        MeterUsage,
        BudgetError,
    >)
        ensures
            r is Ok <==> (all_keys_are_meters(stored@) && forall|m: Meter| #[trigger] stored_amount(
                stored@,
                meter_name(m),
            ) != Some(None::<u64>)),
            r matches Ok(u) ==> forall|m: Meter| #[trigger] has_meter(u@, m) == stored_amount(stored@, meter_name(m)) is Some,
            r matches Ok(u) ==> forall|m: Meter| #[trigger] has_meter(u@, m) ==> stored_amount(stored@, meter_name(m))
                == Some(Some(meter_value(u@, m))),
            r matches Err(e) ==> e matches BudgetError::Malformed { id, .. } && id@ == budget_id@,
    {
        let mut k: usize = 0;
        while k < stored.len()
            invariant
                k <= stored@.len(),
                forall|j: int| 0 <= j < k ==> is_meter_name((#[trigger] stored@[j]).0@),
            decreases stored@.len() - k,
        {
            match Meter::parse(stored[k].0.as_str()) {
                Ok(m) => {
                    assert(meter_name(m) == stored@[k as int].0@);
                    assert(is_meter_name(stored@[k as int].0@));
                },
                Err(detail) => {
                    return Err(BudgetError::Malformed { id: owned(budget_id), detail });
                },
            }
            k = k + 1;
        }
        let mut usage = MeterUsage::new();
        let mut i: usize = 0;
        while i < 7
            invariant
                i <= 7,
                all_keys_are_meters(stored@),
                forall|m: Meter| #[trigger] has_meter(usage@, m) == (exists|q: int| 0 <= q < i && all_meters()[q] == m
                    && stored_amount(stored@, meter_name(m)) is Some),
                forall|m: Meter| #[trigger] has_meter(usage@, m) ==> stored_amount(stored@, meter_name(m))
                    == Some(Some(meter_value(usage@, m))),
                forall|q: int| 0 <= q < i ==> stored_amount(stored@, meter_name(#[trigger] all_meters()[q])) != Some(
                    None::<u64>,
                ),
            decreases 7 - i,
        {
            let meter = Meter::ALL[i];
            assert(meter == all_meters()[i as int]);
            proof {
                lemma_meters_distinct();
            }
            let name = meter.as_str();
            let mut k: usize = 0;
            while k < stored.len() && !str_eq(stored[k].0.as_str(), name)
                invariant
                    k <= stored@.len(),
                    name@ == meter_name(meter),
                    forall|j: int| 0 <= j < k ==> (#[trigger] stored@[j]).0@ != meter_name(meter),
                decreases stored@.len() - k,
            {
                k = k + 1;
            }
            proof {
                if k < stored@.len() {
                    assert(first_key(stored@, meter_name(meter), k as int));
                    lemma_first_key_unique(stored@, meter_name(meter), k as int);
                } else {
                    assert forall|j: int| !first_key(stored@, meter_name(meter), j) by {
                        if first_key(stored@, meter_name(meter), j) {
                            assert(stored@[j].0@ == meter_name(meter));
                        }
                    }
                }
            }
            if k < stored.len() {
                match stored[k].1 {
                    None => {
                        let mut detail = owned(name);
                        detail.append(" must be a non-negative integer");
                        return Err(BudgetError::Malformed { id: owned(budget_id), detail });
                    },
                    Some(amount) => {
                        usage.set(meter, amount);
                    },
                }
            }
            proof {
                assert forall|m: Meter| #[trigger] has_meter(usage@, m) == (exists|q: int| 0 <= q < i + 1 && all_meters()[q]
                    == m && stored_amount(stored@, meter_name(m)) is Some) by {
                    if m == meter {
                        assert(all_meters()[i as int] == m);
                    } else {
                        if exists|q: int| 0 <= q < i + 1 && all_meters()[q] == m && stored_amount(stored@, meter_name(m)) is Some {
                            let q = choose|q: int| 0 <= q < i + 1 && all_meters()[q] == m && stored_amount(stored@, meter_name(m)) is Some;
                            assert(q != i);
                        }
                    }
                }
            }
            i = i + 1;
        }
        proof {
            assert forall|m: Meter| #[trigger] stored_amount(stored@, meter_name(m)) != Some(None::<u64>) by {
                let q = lemma_meter_index(m);
                assert(all_meters()[q] == m);
            }
            assert forall|m: Meter| #[trigger] has_meter(usage@, m) == stored_amount(stored@, meter_name(m)) is Some by {
                let q = lemma_meter_index(m);
                assert(all_meters()[q] == m);
            }
        }
        Ok(usage)
    }
}

/// Whether `s` is the stored spelling of some meter.
pub open spec fn is_meter_name(s: Seq<char>) -> bool {
    exists|m: Meter| meter_name(m) == s
}

/// Whether every stored key names a meter.
pub open spec fn all_keys_are_meters(stored: Seq<(String, Option<u64>)>) -> bool {
    forall|j: int| 0 <= j < stored.len() ==> is_meter_name((#[trigger] stored[j]).0@)
}

/// Whether `j` is the first stored entry keyed `name`.
pub open spec fn first_key(stored: Seq<(String, Option<u64>)>, name: Seq<char>, j: int) -> bool {
    0 <= j < stored.len() && stored[j].0@ == name && forall|k: int| 0 <= k < j ==> (#[trigger] stored[k]).0@ != name
}

/// The stored amount under key `name` (its first entry), or `None` when no entry has it.
pub open spec fn stored_amount(stored: Seq<(String, Option<u64>)>, name: Seq<char>) -> Option<Option<u64>> {
    if exists|j: int| first_key(stored, name, j) {
        Some(stored[choose|j: int| first_key(stored, name, j)].1)
    } else {
        None
    }
}

/// The first entry keyed `name` is unique.
proof fn lemma_first_key_unique(stored: Seq<(String, Option<u64>)>, name: Seq<char>, j: int)
    requires
        first_key(stored, name, j),
    ensures
        stored_amount(stored, name) == Some(stored[j].1),
{
    let c = choose|c: int| first_key(stored, name, c);
    if c < j {
        assert(stored[c].0@ != name);
    } else if c > j {
        assert(stored[j].0@ != name);
    }
}

/// Meter names are pairwise distinct, as are the canonical meters.
proof fn lemma_meters_distinct()
    ensures
        forall|a: Meter, b: Meter| meter_name(a) == meter_name(b) ==> a == b,
{
    reveal_strlit("tokens");
    reveal_strlit("cost_minor_units");
    reveal_strlit("wall_time_ms");
    reveal_strlit("tool_calls");
    reveal_strlit("concurrency");
    reveal_strlit("machine_minutes");
    reveal_strlit("max_steps");
    assert forall|a: Meter, b: Meter| meter_name(a) == meter_name(b) implies a == b by {
        if a != b {
            assert(meter_name(a).len() != meter_name(b).len() || meter_name(a)[0] != meter_name(b)[0]
                || meter_name(a)[1] != meter_name(b)[1]);
        }
    }
}

/// Every meter has a place in the canonical order.
proof fn lemma_meter_index(m: Meter) -> (q: int)
    ensures
        0 <= q < 7,
        all_meters()[q] == m,
{
    match m {
        Meter::Tokens => 0,
        Meter::CostMinorUnits => 1,
        Meter::WallTimeMs => 2,
        Meter::ToolCalls => 3,
        Meter::Concurrency => 4,
        Meter::MachineMinutes => 5,
        Meter::MaxSteps => 6,
    }
}

/// `a - b`, or `0` when `b` is larger.
pub open spec fn sat_sub(a: u64, b: u64) -> u64 {
    if a >= b {
        (a - b) as u64
    } else {
        0
    }
}

/// `a + b`, or `u64::MAX` when it would overflow.
pub open spec fn sat_add(a: u64, b: u64) -> u64 {
    if a + b > u64::MAX {
        u64::MAX
    } else {
        (a + b) as u64
    }
}

/// What remains for one meter: `None` means unbounded.
pub open spec fn remaining_of(limits: Seq<(Meter, u64)>, consumed: Seq<(Meter, u64)>, m: Meter) -> Option<u64> {
    if has_meter(limits, m) {
        Some(sat_sub(meter_value(limits, m), meter_value(consumed, m)))
    } else {
        None
    }
}

/// Whether charging `amount` more of `m` fits within the limits.
pub open spec fn fits_in(limits: Seq<(Meter, u64)>, consumed: Seq<(Meter, u64)>, m: Meter, amount: u64) -> bool {
    match remaining_of(limits, consumed, m) {
        None => true,
        Some(left) => amount <= left,
    }
}

/// What remains for one meter: `None` means unbounded.
pub fn remaining(limits: &MeterUsage, consumed: &MeterUsage, meter: Meter) -> (r: Option<u64>)
    ensures
        r == remaining_of(limits@, consumed@, meter),
{
    if !limits.has(meter) {
        return None;
    }
    Some(limits.get(meter).saturating_sub(consumed.get(meter)))
}

/// Whether charging `amount` more of `meter` fits within the limits.
pub fn fits(limits: &MeterUsage, consumed: &MeterUsage, meter: Meter, amount: u64) -> (r: bool)
    ensures
        r == fits_in(limits@, consumed@, meter, amount),
{
    match remaining(limits, consumed, meter) {
        None => true,
        Some(left) => amount <= left,
    }
}

/// The first charge, in the charges' (canonical) order, that does not fit: its meter, what is
/// consumed of it and its limit.
pub open spec fn first_unfit(
    limits: Seq<(Meter, u64)>,
    consumed: Seq<(Meter, u64)>,
    charges: Seq<(Meter, u64)>,
) -> Option<(Meter, u64, u64)>
    decreases charges.len(),
{
    if charges.len() == 0 {
        None
    } else if !fits_in(limits, consumed, charges[0].0, charges[0].1) {
        Some((charges[0].0, meter_value(consumed, charges[0].0), meter_value(limits, charges[0].0)))
    } else {
        first_unfit(limits, consumed, charges.drop_first())
    }
}

/// Whether the charge of meter `m` in `charges` does not fit.
pub open spec fn unfit_charge(
    limits: Seq<(Meter, u64)>,
    consumed: Seq<(Meter, u64)>,
    charges: Seq<(Meter, u64)>,
    m: Meter,
) -> bool {
    has_meter(charges, m) && !fits_in(limits, consumed, m, meter_value(charges, m))
}

/// The meter that a charge would exhaust, if any: the first charged meter, in canonical
/// order, whose charge does not fit, with what is consumed of it and its limit. Checked in
/// canonical order so the reported exhaustion is deterministic.
pub fn first_exhausted(limits: &MeterUsage, consumed: &MeterUsage, charges: &MeterUsage) -> (r: Option<
    (Meter, u64, u64),
>)
    ensures
        r == first_unfit(limits@, consumed@, charges@),
        r is None <==> forall|x: Meter| !#[trigger] unfit_charge(limits@, consumed@, charges@, x),
        r matches Some((m, c, l)) ==> {
            &&& unfit_charge(limits@, consumed@, charges@, m)
            &&& c == meter_value(consumed@, m)
            &&& l == meter_value(limits@, m)
            &&& forall|x: Meter| #[trigger] unfit_charge(limits@, consumed@, charges@, x) ==> meter_index(m)
                <= meter_index(x)
        },
{
    let entries = charges.entries();
    let mut i: usize = 0;
    proof {
        assert(entries@.skip(0) =~= entries@);
    }
    while i < entries.len()
        invariant
            i <= entries@.len(),
            entries@ == charges@,
            canonical(entries@),
            unique_meters(entries@),
            first_unfit(limits@, consumed@, entries@) == first_unfit(limits@, consumed@, entries@.skip(i as int)),
            forall|j: int| 0 <= j < i ==> fits_in(limits@, consumed@, (#[trigger] entries@[j]).0, entries@[j].1),
        decreases entries@.len() - i,
    {
        let (meter, amount) = entries[i];
        proof {
            assert(entries@.skip(i as int)[0] == entries@[i as int]);
            assert(entries@.skip(i as int).drop_first() =~= entries@.skip(i + 1));
        }
        if !fits(limits, consumed, meter, amount) {
            proof {
                lemma_value_at(entries@, i as int);
                assert(unfit_charge(limits@, consumed@, charges@, meter));
                assert forall|x: Meter| #[trigger] unfit_charge(limits@, consumed@, charges@, x) implies meter_index(
                    meter,
                ) <= meter_index(x) by {
                    let k = choose|k: int| 0 <= k < entries@.len() && (#[trigger] entries@[k]).0 == x;
                    lemma_value_at(entries@, k);
                    if k < i {
                        assert(fits_in(limits@, consumed@, entries@[k].0, entries@[k].1));
                    } else if k > i {
                        assert(meter_index(entries@[i as int].0) < meter_index(entries@[k].0));
                    }
                }
            }
            return Some((meter, consumed.get(meter), limits.get(meter)));
        }
        i = i + 1;
    }
    proof {
        assert forall|x: Meter| !#[trigger] unfit_charge(limits@, consumed@, charges@, x) by {
            if has_meter(charges@, x) {
                let k = choose|k: int| 0 <= k < entries@.len() && (#[trigger] entries@[k]).0 == x;
                lemma_value_at(entries@, k);
                assert(fits_in(limits@, consumed@, entries@[k].0, entries@[k].1));
            }
        }
    }
    None
}

/// The predicate "the meter has nothing left".
pub open spec fn spent(limits: Seq<(Meter, u64)>, consumed: Seq<(Meter, u64)>) -> spec_fn(Meter) -> bool {
    |m: Meter| remaining_of(limits, consumed, m) == Some(0u64)
}

/// Every meter at or beyond its limit, in canonical order: the reason a budget is
/// exhausted.
pub fn exhausted_meters(limits: &MeterUsage, consumed: &MeterUsage) -> (r: Vec<Meter>)
    ensures
        r@ == all_meters().filter(spent(limits@, consumed@)),
{
    let ghost pred = spent(limits@, consumed@);
    let mut out: Vec<Meter> = Vec::new();
    let mut i: usize = 0;
    proof {
        reveal(Seq::filter);
        assert(all_meters().take(0).filter(pred) =~= Seq::<Meter>::empty());
    }
    while i < 7
        invariant
            i <= 7,
            pred == spent(limits@, consumed@),
            out@ == all_meters().take(i as int).filter(pred),
        decreases 7 - i,
    {
        let meter = Meter::ALL[i];
        assert(meter == all_meters()[i as int]);
        let keep = match remaining(limits, consumed, meter) {
            Some(left) => left == 0,
            None => false,
        };
        if keep {
            out.push(meter);
        }
        proof {
            reveal(Seq::filter);
            assert(all_meters().take(i + 1).drop_last() =~= all_meters().take(i as int));
            assert(all_meters().take(i + 1).last() == meter);
        }
        i = i + 1;
    }
    proof {
        assert(all_meters().take(7) =~= all_meters());
    }
    out
}

/// The meters an exhausted budget reports, as strings (used in events and reports).
pub const EXHAUSTED_METERS: &'static str = "meters";

/// The consumed entries after a charge: each charged meter is set to its consumption
/// plus the charge, saturating, in the charges' (canonical) order.
pub open spec fn applied_entries(consumed: Seq<(Meter, u64)>, charges: Seq<(Meter, u64)>) -> Seq<(Meter, u64)>
    decreases charges.len(),
{
    if charges.len() == 0 {
        consumed
    } else {
        applied_entries(
            set_entry(consumed, charges[0].0, sat_add(meter_value(consumed, charges[0].0), charges[0].1)),
            charges.drop_first(),
        )
    }
}

/// Apply a charge to a consumed set, saturating at `u64::MAX`.
pub fn applied(consumed: &MeterUsage, charges: &MeterUsage) -> (r: MeterUsage)
    ensures
        r@ == applied_entries(consumed@, charges@),
        forall|m: Meter| #[trigger] has_meter(r@, m) == (has_meter(consumed@, m) || has_meter(charges@, m)),
        forall|m: Meter| #[trigger] meter_value(r@, m) == if has_meter(charges@, m) {
            sat_add(meter_value(consumed@, m), meter_value(charges@, m))
        } else {
            meter_value(consumed@, m)
        },
{
    let mut next = consumed.clone();
    let entries = charges.entries();
    let mut i: usize = 0;
    proof {
        assert(entries@.skip(0) =~= entries@);
    }
    while i < entries.len()
        invariant
            i <= entries@.len(),
            unique_meters(entries@),
            entries@ == charges@,
            applied_entries(consumed@, charges@) == applied_entries(next@, entries@.skip(i as int)),
            forall|m: Meter| #[trigger] has_meter(next@, m) == (has_meter(consumed@, m) || exists|k: int|
                0 <= k < i && (#[trigger] entries@[k]).0 == m),
            forall|m: Meter| #[trigger] meter_value(next@, m) == if exists|k: int| 0 <= k < i && (#[trigger] entries@[k]).0
                == m {
                sat_add(meter_value(consumed@, m), meter_value(charges@, m))
            } else {
                meter_value(consumed@, m)
            },
        decreases entries@.len() - i,
    {
        let (meter, amount) = entries[i];
        proof {
            assert(entries@.skip(i as int)[0] == entries@[i as int]);
            assert(entries@.skip(i as int).drop_first() =~= entries@.skip(i + 1));
            lemma_value_at(entries@, i as int);
            assert forall|k: int| 0 <= k < i implies (#[trigger] entries@[k]).0 != meter by {
                assert(entries@[k].0 != entries@[i as int].0);
            }
        }
        let current = next.get(meter);
        next.set(meter, current.saturating_add(amount));
        proof {
            assert forall|m: Meter| #[trigger] has_meter(next@, m) == (has_meter(consumed@, m) || exists|k: int|
                0 <= k < i + 1 && (#[trigger] entries@[k]).0 == m) by {
                if m == meter {
                    assert(entries@[i as int].0 == m);
                }
            }
            assert forall|m: Meter| #[trigger] meter_value(next@, m) == if exists|k: int| 0 <= k < i + 1 && (
            #[trigger] entries@[k]).0 == m {
                sat_add(meter_value(consumed@, m), meter_value(charges@, m))
            } else {
                meter_value(consumed@, m)
            } by {
                if m == meter {
                    assert(entries@[i as int].0 == m);
                }
            }
        }
        i = i + 1;
    }
    proof {
        assert forall|m: Meter| has_meter(charges@, m) <==> exists|k: int| 0 <= k < entries@.len() && (
        #[trigger] entries@[k]).0 == m by {
        }
        assert(entries@.skip(entries@.len() as int) =~= Seq::<(Meter, u64)>::empty());
    }
    next
}

/// Whether a child's request for meter `m` is beyond what the parent bounds.
pub open spec fn exceeds(parent: Seq<(Meter, u64)>, e: (Meter, u64)) -> bool {
    has_meter(parent, e.0) && e.1 > meter_value(parent, e.0)
}

/// The predicate "the child's request exceeds the parent".
pub open spec fn exceeds_parent(parent: Seq<(Meter, u64)>) -> spec_fn((Meter, u64)) -> bool {
    |e: (Meter, u64)| exceeds(parent, e)
}

/// Narrow a child's requested allowance to what its parent has left.
///
/// Returns the child limits unchanged where every meter fits, and the narrowed set plus
/// the meters that had to shrink as `(meter, requested, left)`, so a caller can refuse the
/// grant instead of silently granting less.
pub fn narrow_to_parent(child: &MeterUsage, parent_remaining: &MeterUsage) -> (r: (MeterUsage, Vec<(Meter, u64, u64)>))
    ensures
        r.0@.len() == child@.len(),
        forall|i: int| 0 <= i < child@.len() ==> (#[trigger] r.0@[i]) == if exceeds(parent_remaining@, child@[i]) {
            (child@[i].0, meter_value(parent_remaining@, child@[i].0))
        } else {
            child@[i]
        },
        r.1@ == child@.filter(exceeds_parent(parent_remaining@)).map_values(
            |e: (Meter, u64)| (e.0, e.1, meter_value(parent_remaining@, e.0)),
        ),
{
    let ghost pred = exceeds_parent(parent_remaining@);
    let ghost f = |e: (Meter, u64)| (e.0, e.1, meter_value(parent_remaining@, e.0));
    let entries = child.entries();
    let mut narrowed: Vec<(Meter, u64)> = Vec::new();
    let mut shrunk: Vec<(Meter, u64, u64)> = Vec::new();
    let mut i: usize = 0;
    proof {
        reveal(Seq::filter);
        assert(entries@.take(0).filter(pred) =~= Seq::<(Meter, u64)>::empty());
        assert(shrunk@ =~= entries@.take(0).filter(pred).map_values(f));
    }
    while i < entries.len()
        invariant
            i <= entries@.len(),
            entries@ == child@,
            unique_meters(entries@),
            pred == exceeds_parent(parent_remaining@),
            f == (|e: (Meter, u64)| (e.0, e.1, meter_value(parent_remaining@, e.0))),
            narrowed@.len() == i,
            forall|k: int| 0 <= k < i ==> (#[trigger] narrowed@[k]) == if exceeds(parent_remaining@, entries@[k]) {
                (entries@[k].0, meter_value(parent_remaining@, entries@[k].0))
            } else {
                entries@[k]
            },
            shrunk@ == entries@.take(i as int).filter(pred).map_values(f),
        decreases entries@.len() - i,
    {
        let (meter, requested) = entries[i];
        let bounded = parent_remaining.has(meter);
        let left = parent_remaining.get(meter);
        let shrink = bounded && requested > left;
        let ghost before = shrunk@;
        if shrink {
            narrowed.push((meter, left));
            shrunk.push((meter, requested, left));
        } else {
            narrowed.push((meter, requested));
        }
        proof {
            reveal(Seq::filter);
            assert(entries@.take(i + 1).drop_last() =~= entries@.take(i as int));
            assert(entries@.take(i + 1).last() == entries@[i as int]);
            if shrink {
                assert(shrunk@ =~= before.push(f(entries@[i as int])));
            }
        }
        i = i + 1;
    }
    proof {
        assert(entries@.take(entries@.len() as int) =~= entries@);
        assert forall|a: int, b: int| 0 <= a < b < narrowed@.len() implies (#[trigger] narrowed@[a]).0
            != (#[trigger] narrowed@[b]).0 by {
            assert(entries@[a].0 != entries@[b].0);
        }
    }
    (MeterUsage { entries: narrowed }, shrunk)
}

/// The first child request, in the child's order, beyond what the parent has left:
/// its meter, the requested amount and what remains.
pub open spec fn first_excess(
    child: Seq<(Meter, u64)>,
    parent_limits: Seq<(Meter, u64)>,
    parent_consumed: Seq<(Meter, u64)>,
) -> Option<(Meter, u64, u64)>
    decreases child.len(),
{
    if child.len() == 0 {
        None
    } else {
        match remaining_of(parent_limits, parent_consumed, child[0].0) {
            Some(left) => if child[0].1 > left {
                Some((child[0].0, child[0].1, left))
            } else {
                first_excess(child.drop_first(), parent_limits, parent_consumed)
            },
            None => first_excess(child.drop_first(), parent_limits, parent_consumed),
        }
    }
}

/// Whether a child allowance fits within the parent's remaining allowance; a meter the
/// parent does not bound is no constraint.
pub fn ensure_child_within_parent(
    child_id: &str,
    parent_id: &str,
    child: &MeterUsage,
    parent_limits: &MeterUsage,
    parent_consumed: &MeterUsage,
) -> (r: Result<(), BudgetError>)
    ensures
        r is Ok <==> first_excess(child@, parent_limits@, parent_consumed@) is None,
        r matches Err(e) ==> (first_excess(child@, parent_limits@, parent_consumed@) matches Some(x) && e matches BudgetError::ExceedsParent {
            child: c,
            parent: p,
            meter,
            requested,
            remaining,
        } && c@ == child_id@ && p@ == parent_id@ && meter == x.0 && requested == x.1 && remaining == x.2),
{
    let entries = child.entries();
    let mut i: usize = 0;
    proof {
        assert(entries@.skip(0) =~= entries@);
    }
    while i < entries.len()
        invariant
            i <= entries@.len(),
            entries@ == child@,
            first_excess(child@, parent_limits@, parent_consumed@) == first_excess(
                entries@.skip(i as int),
                parent_limits@,
                parent_consumed@,
            ),
        decreases entries@.len() - i,
    {
        let (meter, requested) = entries[i];
        proof {
            assert(entries@.skip(i as int)[0] == entries@[i as int]);
            assert(entries@.skip(i as int).drop_first() =~= entries@.skip(i + 1));
        }
        match remaining(parent_limits, parent_consumed, meter) {
            Some(left) => {
                if requested > left {
                    return Err(
                        BudgetError::ExceedsParent {
                            child: owned(child_id),
                            parent: owned(parent_id),
                            meter,
                            requested,
                            remaining: left,
                        },
                    );
                }
            },
            None => {},
        }
        i = i + 1;
    }
    Ok(())
}

} // verus!
