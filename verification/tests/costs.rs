use llm_call::llm_call_costs::{can_report, drain, peek, report, AliasCostEntry, AliasMap, Cost};
use llm_call::provider::estimated_cost;
use llm_call::string_map::StringMap;

/// A thousandth of a US dollar.
const MILLI_DOLLAR: u128 = 100_000;

#[test]
fn report_and_peek() {
    let mut ledger: AliasMap = StringMap::new();
    report(&mut ledger, "critic", 100, 50, MILLI_DOLLAR);
    let snap = peek(&ledger);
    assert_eq!(snap.get("critic").unwrap().calls, 1);
    assert_eq!(snap.get("critic").unwrap().tokens_in, 100);
    let drained = drain(&mut ledger);
    assert_eq!(drained.get("critic").unwrap().calls, 1);
    let after_drain = peek(&ledger);
    assert!(after_drain.is_empty());
}

#[test]
fn reports_of_one_alias_add_up() {
    let mut ledger: AliasMap = StringMap::new();
    report(&mut ledger, "b", 10, 20, 3);
    report(&mut ledger, "a", 1, 2, 4);
    report(&mut ledger, "b", 100, 200, 30);
    assert_eq!(ledger.len(), 2);
    let b = ledger.get("b").unwrap();
    assert_eq!((b.calls, b.tokens_in, b.tokens_out, b.cost_usd_e8.low), (2, 110, 220, 33));
    let a = ledger.get("a").unwrap();
    assert_eq!((a.calls, a.tokens_in, a.tokens_out, a.cost_usd_e8.low), (1, 1, 2, 4));
    assert!(ledger.get("c").is_none());
}

#[test]
fn costs_come_in_the_order_of_the_aliases() {
    let mut ledger: AliasMap = StringMap::new();
    for alias in ["zeta", "alpha", "mid", "Alpha", "alph", "\u{e9}t\u{e9}", ""] {
        report(&mut ledger, alias, 1, 1, 1);
    }
    let drained = drain(&mut ledger);
    let mut expected = vec!["zeta", "alpha", "mid", "Alpha", "alph", "\u{e9}t\u{e9}", ""];
    expected.sort();
    let keys: Vec<&str> = (0..drained.len()).map(|i| drained.key_at(i)).collect();
    assert_eq!(keys, expected);
    assert_eq!(drained.value_at(0).calls, 1);
}

#[test]
fn report_order_does_not_count() {
    let mut one: AliasMap = StringMap::new();
    report(&mut one, "x", 1, 2, 3);
    report(&mut one, "y", 4, 5, 6);
    let mut two: AliasMap = StringMap::new();
    report(&mut two, "y", 4, 5, 6);
    report(&mut two, "x", 1, 2, 3);
    for key in ["x", "y"] {
        let (a, b) = (one.get(key).unwrap(), two.get(key).unwrap());
        assert_eq!((a.calls, a.tokens_in, a.tokens_out), (b.calls, b.tokens_in, b.tokens_out));
        assert_eq!(a.cost_usd_e8, b.cost_usd_e8);
    }
}

#[test]
fn draining_in_between_loses_nothing() {
    let mut ledger: AliasMap = StringMap::new();
    report(&mut ledger, "x", 5, 6, 7);
    let first = drain(&mut ledger);
    report(&mut ledger, "x", 50, 60, 70);
    let second = drain(&mut ledger);
    let (a, b) = (first.get("x").unwrap(), second.get("x").unwrap());
    assert_eq!(a.calls + b.calls, 2);
    assert_eq!(a.tokens_in + b.tokens_in, 55);
    assert_eq!(a.tokens_out + b.tokens_out, 66);
    assert_eq!(a.cost_usd_e8.plus(b.cost_usd_e8.low), Cost { low: 77, high: 0 });
    assert!(drain(&mut ledger).is_empty());
}

#[test]
fn peeking_changes_nothing() {
    let mut ledger: AliasMap = StringMap::new();
    report(&mut ledger, "x", 5, 6, 7);
    let _ = peek(&ledger);
    assert_eq!(peek(&ledger).get("x").unwrap().tokens_out, 6);
    assert_eq!(ledger.len(), 1);
}

#[test]
fn overflow_is_seen_beforehand() {
    let mut ledger: AliasMap = StringMap::new();
    assert!(can_report(&ledger, "x", u64::MAX, u64::MAX));
    report(&mut ledger, "x", u64::MAX - 1, 0, 0);
    assert!(can_report(&ledger, "x", 1, 0));
    assert!(!can_report(&ledger, "x", 2, 0));
    assert!(can_report(&ledger, "y", 2, 0));
    report(&mut ledger, "x", 0, u64::MAX, 0);
    assert!(!can_report(&ledger, "x", 0, 1));
    assert!(can_report(&ledger, "x", 0, 0));
}

#[test]
fn costs_never_run_out_of_room() {
    let mut ledger: AliasMap = StringMap::new();
    for _ in 0..3 {
        report(&mut ledger, "x", 1, 1, u128::MAX);
    }
    let cost = ledger.get("x").unwrap().cost_usd_e8;
    assert_eq!(cost, Cost { low: u128::MAX - 2, high: 2 });
    assert_eq!(Cost { low: 5, high: 0 }.plus(6), Cost { low: 11, high: 0 });
    assert_eq!(Cost { low: u128::MAX, high: 0 }.plus(1), Cost { low: 0, high: 1 });
}

#[test]
fn a_new_entry_is_empty() {
    let entry = AliasCostEntry::default();
    assert_eq!((entry.calls, entry.tokens_in, entry.tokens_out), (0, 0, 0));
    assert_eq!(entry.cost_usd_e8, Cost { low: 0, high: 0 });
}

#[test]
fn estimates_agree_with_the_dollar_formula() {
    let cases = [
        ("openai", 2.50, 10.00),
        ("Open-AI", 2.50, 10.00),
        ("anthropic", 3.00, 15.00),
        (" deepseek ", 0.14, 0.28),
        ("deepseek-cn", 0.14, 0.28),
        ("deepseekcn", 1.00, 4.00),
        ("mistral", 1.00, 4.00),
    ];
    for (provider, price_in, price_out) in cases {
        let exact = estimated_cost(provider, 1234, 567) as f64 / 1e8;
        let dollars: f64 = (1234.0 * price_in + 567.0 * price_out) / 1_000_000.0;
        assert!((exact - dollars).abs() < 1e-12, "{provider}");
    }
    assert_eq!(estimated_cost("openai", 1_000_000, 0), 250_000_000);
    assert_eq!(estimated_cost("openai", 0, 1_000_000), 1_000_000_000);
    assert_eq!(estimated_cost("anthropic", u64::MAX, u64::MAX), u64::MAX as u128 * 1800);
    assert_eq!(estimated_cost("x", 0, 0), 0);
}
