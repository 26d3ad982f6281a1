use listing_ledger::delta::{
    accumulate, add_to, distinct_keys, locate, lookup, period_sales, sold_delta, sum_counts,
    Amounts, Entry, COARSE_MAX, FINE_MAX,
};

fn entries(pairs: &[(&str, i64)]) -> Vec<Entry> {
    pairs.iter().map(|(key, count)| Entry { key: key.to_string(), count: *count }).collect()
}

fn pairs(entries: &Vec<Entry>) -> Vec<(String, i64)> {
    entries.iter().map(|e| (e.key.clone(), e.count)).collect()
}

fn owned(pairs: &[(&str, i64)]) -> Vec<(String, i64)> {
    pairs.iter().map(|(key, count)| (key.to_string(), *count)).collect()
}

#[test]
fn increase_is_no_sale() {
    assert_eq!(sold_delta(100, 150, COARSE_MAX), 0);
    assert_eq!(sold_delta(100, 100, COARSE_MAX), 0);
}

#[test]
fn negative_reading_counts_as_a_drop_and_is_clamped() {
    assert_eq!(sold_delta(100, -20, COARSE_MAX), 120);
    assert_eq!(sold_delta(100, -20, 100), 100);
    assert_eq!(sold_delta(100, -500, COARSE_MAX), 500);
    assert_eq!(sold_delta(100, -500, FINE_MAX), 200);
}

#[test]
fn plain_drop_is_the_sale() {
    assert_eq!(sold_delta(100, 40, COARSE_MAX), 60);
    assert_eq!(sold_delta(100, 40, FINE_MAX), 60);
}

#[test]
fn extreme_readings_do_not_overflow() {
    assert_eq!(sold_delta(i64::MAX, i64::MIN, COARSE_MAX), 500);
    assert_eq!(sold_delta(i64::MIN, i64::MAX, COARSE_MAX), 0);
    assert_eq!(sold_delta(5, 4, 0), 0);
}

#[test]
fn lookup_finds_the_first_entry_of_a_key() {
    let e = entries(&[("red", 3), ("blue", 4), ("red", 9)]);
    assert_eq!(locate(&e, &"red".to_string()), 0);
    assert_eq!(locate(&e, &"blue".to_string()), 1);
    assert_eq!(locate(&e, &"green".to_string()), 3);
    assert_eq!(lookup(&e, &"red".to_string()), Some(3));
    assert_eq!(lookup(&e, &"green".to_string()), None);
}

#[test]
fn new_key_contributes_nothing() {
    let previous = entries(&[("red", 100), ("blue", 50)]);
    let current = entries(&[("red", 40), ("green", 7), ("blue", 80)]);
    let deltas = period_sales(&previous, &current, COARSE_MAX);
    assert_eq!(pairs(&deltas), owned(&[("red", 60), ("green", 0), ("blue", 0)]));
}

#[test]
fn fine_dimension_clamps_lower() {
    let previous = entries(&[("red-m", 1000)]);
    let current = entries(&[("red-m", 10)]);
    assert_eq!(pairs(&period_sales(&previous, &current, COARSE_MAX)), owned(&[("red-m", 500)]));
    assert_eq!(pairs(&period_sales(&previous, &current, FINE_MAX)), owned(&[("red-m", 200)]));
}

#[test]
fn totals_are_added_up() {
    assert_eq!(sum_counts(&entries(&[("a", 5), ("b", 3), ("c", 7)])), Some(15));
    assert_eq!(sum_counts(&entries(&[])), Some(0));
    assert_eq!(sum_counts(&entries(&[("a", i64::MAX), ("b", 1)])), None);
    assert_eq!(sum_counts(&entries(&[("a", i64::MAX), ("b", 1), ("c", -1)])), Some(i64::MAX));
}

#[test]
fn accumulate_adds_to_known_keys_and_appends_new_ones() {
    let totals = entries(&[("red", 10), ("blue", 1)]);
    let deltas = entries(&[("blue", 4), ("green", 2), ("red", 0)]);
    let sums = accumulate(totals, &deltas).unwrap();
    assert_eq!(pairs(&sums), owned(&[("red", 10), ("blue", 5), ("green", 2)]));
}

#[test]
fn accumulate_refuses_an_overflow() {
    let totals = entries(&[("red", i64::MAX)]);
    assert!(accumulate(totals, &entries(&[("red", 1)])).is_none());
    assert!(add_to(entries(&[("red", i64::MAX)]), &"red".to_string(), 1).is_none());
    let grown = add_to(entries(&[("red", 1)]), &"blue".to_string(), i64::MAX).unwrap();
    assert_eq!(pairs(&grown), owned(&[("red", 1), ("blue", i64::MAX)]));
}

#[test]
fn amounts_run_the_filter_by_dimension() {
    let previous = Amounts {
        color: entries(&[("red", 1000)]),
        size: entries(&[("m", 1000)]),
        detail: entries(&[("red-m", 1000)]),
    };
    let current = Amounts {
        color: entries(&[("red", 0)]),
        size: entries(&[("m", 700)]),
        detail: entries(&[("red-m", 0)]),
    };
    let sold = current.sold_since(&previous);
    assert_eq!(pairs(&sold.color), owned(&[("red", 500)]));
    assert_eq!(pairs(&sold.size), owned(&[("m", 300)]));
    assert_eq!(pairs(&sold.detail), owned(&[("red-m", 200)]));
    let zeros = current.zeros();
    assert_eq!(pairs(&zeros.size), owned(&[("m", 0)]));
    let sums = zeros.plus(&sold).unwrap();
    assert_eq!(pairs(&sums.detail), owned(&[("red-m", 200)]));
    let copy = sums.copy();
    assert_eq!(pairs(&copy.color), owned(&[("red", 500)]));
}

#[test]
fn distinct_keys_are_counted_once() {
    assert_eq!(distinct_keys(&entries(&[])), 0);
    assert_eq!(distinct_keys(&entries(&[("a", 1), ("b", 2), ("c", 3)])), 3);
    assert_eq!(distinct_keys(&entries(&[("a", 1), ("b", 2), ("a", 3), ("a", 4), ("b", 0)])), 2);
}
