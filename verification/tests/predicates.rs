//! The label-selection predicate strings and the decimal rendering
//! behind them.

use lance_index::predicate::{eq_predicate, i64_to_decimal, in_predicate, u64_to_decimal};
use lance_index::runtime::block_on;

#[test]
fn decimal_rendering_is_exact() {
    assert_eq!(u64_to_decimal(0), "0");
    assert_eq!(u64_to_decimal(7), "7");
    assert_eq!(u64_to_decimal(10), "10");
    assert_eq!(u64_to_decimal(90210), "90210");
    assert_eq!(u64_to_decimal(18446744073709551615), "18446744073709551615");
    assert_eq!(i64_to_decimal(0), "0");
    assert_eq!(i64_to_decimal(-1), "-1");
    assert_eq!(i64_to_decimal(-90210), "-90210");
    assert_eq!(i64_to_decimal(9223372036854775807), "9223372036854775807");
    assert_eq!(i64_to_decimal(-9223372036854775808), "-9223372036854775808");
}

#[test]
fn equality_predicate_selects_one_label() {
    assert_eq!(eq_predicate(0), "label = 0");
    assert_eq!(eq_predicate(42), "label = 42");
    assert_eq!(eq_predicate(-3), "label = -3");
}

#[test]
fn membership_predicate_joins_labels() {
    assert_eq!(in_predicate(&vec![7]), "label IN (7)");
    assert_eq!(in_predicate(&vec![1, 2]), "label IN (1, 2)");
    assert_eq!(in_predicate(&vec![5, 3, 8]), "label IN (5, 3, 8)");
    assert_eq!(in_predicate(&vec![]), "label IN ()");
}

#[test]
fn bridge_runs_deferred_work_to_completion() {
    let r = block_on(|| 41 + 1);
    assert_eq!(r, 42);
    let s = block_on(|| "done".to_string());
    assert_eq!(s, "done");
}
