use quansio_server::runtime::budgets::limits::{
    applied, ensure_child_within_parent, exhausted_meters, first_exhausted, fits, narrow_to_parent, remaining, Meter,
    MeterUsage,
};
use quansio_server::runtime::budgets::service::{
    capacity_of, check_grant, decide_charge, remaining_allowance, BudgetRecord, BudgetSpec,
};
use quansio_server::runtime::budgets::BudgetError;

fn usage(pairs: &[(Meter, u64)]) -> MeterUsage {
    let mut set = MeterUsage::new();
    for (meter, value) in pairs {
        set.set(*meter, *value);
    }
    set
}

#[test]
fn an_absent_limit_is_unbounded_and_a_reached_one_is_exhausted() {
    let limits = usage(&[(Meter::ToolCalls, 3)]);
    let used = usage(&[(Meter::ToolCalls, 2)]);
    assert_eq!(remaining(&limits, &used, Meter::ToolCalls), Some(1));
    assert_eq!(remaining(&limits, &used, Meter::Tokens), None);
    assert!(fits(&limits, &used, Meter::Tokens, 1_000_000));
    assert!(fits(&limits, &used, Meter::ToolCalls, 1));
    assert!(!fits(&limits, &used, Meter::ToolCalls, 2));
    let spent = usage(&[(Meter::ToolCalls, 3)]);
    assert_eq!(exhausted_meters(&limits, &spent), vec![Meter::ToolCalls]);
    assert!(exhausted_meters(&limits, &used).is_empty());
}

#[test]
fn the_first_exhausted_meter_is_reported_deterministically() {
    let limits = usage(&[(Meter::Tokens, 100), (Meter::ToolCalls, 1)]);
    let used = usage(&[(Meter::Tokens, 90), (Meter::ToolCalls, 1)]);
    let mut charges = MeterUsage::new();
    charges.set(Meter::Tokens, 20);
    charges.set(Meter::ToolCalls, 1);
    let (meter, consumed_amount, limit) = first_exhausted(&limits, &used, &charges).expect("exhausted");
    assert_eq!(meter, Meter::Tokens, "canonical order decides the report");
    assert_eq!((consumed_amount, limit), (90, 100));
}

#[test]
fn a_child_may_not_exceed_its_parent_remaining() {
    let parent_limits = usage(&[(Meter::Tokens, 1_000), (Meter::Concurrency, 4)]);
    let parent_used = usage(&[(Meter::Tokens, 400)]);
    let child = usage(&[(Meter::Tokens, 600), (Meter::Concurrency, 2)]);
    ensure_child_within_parent("bdg_child", "bdg_parent", &child, &parent_limits, &parent_used)
        .expect("600 <= 600 remaining");

    let greedy = usage(&[(Meter::Tokens, 700)]);
    let error = ensure_child_within_parent("bdg_child", "bdg_parent", &greedy, &parent_limits, &parent_used)
        .expect_err("700 > 600 remaining");
    assert_eq!(error.code(), "VALIDATION_BOUNDS");
    assert!(matches!(
        error,
        BudgetError::ExceedsParent { meter: Meter::Tokens, requested: 700, remaining: 600, .. }
    ));

    let unbounded = usage(&[(Meter::MachineMinutes, 10_000)]);
    ensure_child_within_parent("bdg_child", "bdg_parent", &unbounded, &parent_limits, &parent_used)
        .expect("the parent sets no machine-minutes limit");
}

#[test]
fn narrowing_reports_what_it_shrank() {
    let parent = usage(&[(Meter::Tokens, 100), (Meter::ToolCalls, 10)]);
    let child = usage(&[(Meter::Tokens, 500), (Meter::ToolCalls, 5)]);
    let (narrowed, shrunk) = narrow_to_parent(&child, &parent);
    assert_eq!(narrowed.get(Meter::Tokens), 100);
    assert_eq!(narrowed.get(Meter::ToolCalls), 5);
    assert_eq!(shrunk, vec![(Meter::Tokens, 500, 100)]);
}

#[test]
fn a_charge_accumulates_per_meter() {
    let used = usage(&[(Meter::Tokens, 10)]);
    let mut charges = MeterUsage::new();
    charges.set(Meter::Tokens, 5);
    charges.set(Meter::ToolCalls, 1);
    let after = applied(&used, &charges);
    assert_eq!(after.get(Meter::Tokens), 15);
    assert_eq!(after.get(Meter::ToolCalls), 1);
}

#[test]
fn meter_names_round_trip_and_unknown_names_are_refused() {
    for meter in Meter::ALL {
        assert_eq!(Meter::parse(meter.as_str()).expect("meter"), meter);
    }
    assert!(Meter::parse("tokenz").is_err());
}

#[test]
fn stored_entries_build_a_set_in_canonical_order() {
    let stored = vec![("concurrency".to_string(), Some(2)), ("tokens".to_string(), Some(1_000))];
    let parsed = MeterUsage::from_entries("bdg_1", &stored).expect("parse");
    assert_eq!(parsed, usage(&[(Meter::Tokens, 1_000), (Meter::Concurrency, 2)]));
    assert_eq!(parsed.entries()[0].0, Meter::Tokens);

    let unknown = vec![("tokenz".to_string(), Some(1))];
    let error = MeterUsage::from_entries("bdg_1", &unknown).expect_err("unknown meter");
    assert!(matches!(error, BudgetError::Malformed { .. }));
    assert_eq!(error.code(), "VALIDATION_SCHEMA");

    let negative = vec![("tokens".to_string(), None)];
    assert!(matches!(
        MeterUsage::from_entries("bdg_1", &negative),
        Err(BudgetError::Malformed { .. })
    ));
}

#[test]
fn setting_a_meter_twice_keeps_the_last_value() {
    let mut set = MeterUsage::new();
    set.set(Meter::Tokens, 5);
    set.set(Meter::Tokens, 9);
    assert_eq!(set.get(Meter::Tokens), 9);
    assert_eq!(set.entries().len(), 1);
    assert!(set.has(Meter::Tokens));
    assert!(!set.has(Meter::ToolCalls));
}

fn record(limits: MeterUsage, consumed: MeterUsage, status: &str) -> BudgetRecord {
    BudgetRecord {
        id: "bdg_parent".to_string(),
        workspace_id: Some("ws_1".to_string()),
        scope: "run".to_string(),
        scope_ref: Some("run_1".to_string()),
        limits,
        consumed,
        parent_budget_id: None,
        status: status.to_string(),
    }
}

fn spec(limits: MeterUsage, parent: Option<&str>) -> BudgetSpec {
    BudgetSpec {
        workspace_id: Some("ws_1".to_string()),
        scope: "agent_thread".to_string(),
        scope_ref: Some("ath_1".to_string()),
        limits,
        parent_budget_id: parent.map(|p| p.to_string()),
    }
}

#[test]
fn a_nested_grant_must_fit_what_its_parent_has_left() {
    let parent = record(usage(&[(Meter::Tokens, 100)]), usage(&[(Meter::Tokens, 60)]), "active");
    assert_eq!(check_grant(&spec(usage(&[(Meter::Tokens, 40)]), Some("bdg_parent")), Some(&parent)), Ok(()));
    assert_eq!(
        check_grant(&spec(usage(&[(Meter::Tokens, 41)]), Some("bdg_parent")), Some(&parent)),
        Err(BudgetError::ExceedsParent {
            child: "(new budget)".to_string(),
            parent: "bdg_parent".to_string(),
            meter: Meter::Tokens,
            requested: 41,
            remaining: 40,
        })
    );
    assert_eq!(
        check_grant(&spec(usage(&[(Meter::Tokens, 1)]), Some("bdg_gone")), None),
        Err(BudgetError::NotFound { id: "bdg_gone".to_string() })
    );
    assert_eq!(check_grant(&spec(usage(&[(Meter::Tokens, 1_000)]), None), None), Ok(()));
}

#[test]
fn a_charge_grows_consumption_and_marks_exhaustion_exactly_at_the_limit() {
    let budget = record(usage(&[(Meter::ToolCalls, 3)]), usage(&[(Meter::ToolCalls, 1)]), "active");
    let once = decide_charge("bdg_parent", &budget, &usage(&[(Meter::ToolCalls, 1)])).expect("charge");
    assert_eq!(once.consumed.get(Meter::ToolCalls), 2);
    assert!(!once.exhausted);
    assert_eq!(once.status, "active");
    assert!(once.may_continue());
    let last = decide_charge("bdg_parent", &budget, &usage(&[(Meter::ToolCalls, 2)])).expect("charge");
    assert!(last.exhausted);
    assert_eq!(last.status, "exhausted");
    assert!(!last.may_continue());
    assert_eq!(
        decide_charge("bdg_parent", &budget, &usage(&[(Meter::ToolCalls, 3)])),
        Err(BudgetError::Exhausted { budget_id: "bdg_parent".to_string(), meter: Meter::ToolCalls, consumed: 1, limit: 3 })
    );
}

#[test]
fn capacity_follows_status_and_the_concurrency_limit() {
    let bounded = record(usage(&[(Meter::Concurrency, 4)]), MeterUsage::new(), "active");
    assert_eq!(capacity_of(&bounded), Some(4));
    assert_eq!(capacity_of(&record(MeterUsage::new(), MeterUsage::new(), "active")), None);
    assert_eq!(capacity_of(&record(usage(&[(Meter::Concurrency, 4)]), MeterUsage::new(), "suspended")), Some(0));
    let left = remaining_allowance(&record(
        usage(&[(Meter::Tokens, 10), (Meter::ToolCalls, 2)]),
        usage(&[(Meter::Tokens, 12)]),
        "active",
    ));
    assert_eq!(left.get(Meter::Tokens), 0);
    assert_eq!(left.get(Meter::ToolCalls), 2);
    assert!(!left.has(Meter::Concurrency));
}

#[test]
fn meters_are_kept_and_checked_in_canonical_order() {
    let mut charges = MeterUsage::new();
    charges.set(Meter::ToolCalls, 5);
    charges.set(Meter::Tokens, 500);
    charges.set(Meter::Concurrency, 1);
    charges.set(Meter::ToolCalls, 6);
    assert_eq!(charges.entries(), &[(Meter::Tokens, 500), (Meter::ToolCalls, 6), (Meter::Concurrency, 1)][..]);
    let limits = usage(&[(Meter::ToolCalls, 1), (Meter::Tokens, 100)]);
    assert_eq!(first_exhausted(&limits, &MeterUsage::new(), &charges), Some((Meter::Tokens, 0, 100)));
}
