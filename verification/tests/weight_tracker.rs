use listing_ledger::weight::{estimate, floor_log2, needs_review};

#[test]
fn trigger_schedule_with_period_32() {
    let fired: Vec<i64> = (1..=64).filter(|c| needs_review(c - 1, *c, 32)).collect();
    assert_eq!(fired, vec![1, 2, 4, 8, 16, 32, 64]);
}

#[test]
fn trigger_schedule_with_period_10() {
    let fired: Vec<i64> = (1..=64).filter(|c| needs_review(c - 1, *c, 10)).collect();
    assert_eq!(fired, vec![1, 2, 4, 8, 10, 16, 20, 30, 32, 40, 50, 60]);
}

#[test]
fn trigger_on_jumps() {
    assert!(needs_review(0, 3, 1000));
    assert!(needs_review(3, 6, 1000));
    assert!(!needs_review(4, 7, 1000));
    assert!(!needs_review(33, 64, 1000));
    assert!(needs_review(33, 64, 50));
    assert!(!needs_review(5, 5, 5));
}

#[test]
fn logarithm_is_floored() {
    assert_eq!(floor_log2(0), 0);
    assert_eq!(floor_log2(1), 0);
    assert_eq!(floor_log2(2), 1);
    assert_eq!(floor_log2(3), 1);
    assert_eq!(floor_log2(4), 2);
    assert_eq!(floor_log2(31), 4);
    assert_eq!(floor_log2(32), 5);
    assert_eq!(floor_log2(i64::MAX), 62);
    assert_eq!(floor_log2(-5), 0);
}

#[test]
fn estimate_divides_twice() {
    assert_eq!(estimate(1000, 3, 1000), Some(333));
    assert_eq!(estimate(1000, 3, 7), Some(47571));
    assert_eq!(estimate(10, 2, 1), Some(5000));
    assert_eq!(estimate(0, 1, 1), Some(0));
    assert_eq!(estimate(i64::MAX, 1, 1), None);
    assert_eq!(estimate(i64::MAX, 1, 1000), Some(i64::MAX));
    assert_eq!(estimate(1000, 3, -7), Some(-47571));
    assert_eq!(estimate(i64::MAX, 1, -1), None);
    assert_eq!(estimate(10, 3, -4000), Some(0));
}
