use listing_ledger::delta::Amounts;
use listing_ledger::ledger::{Merge, SaleLedger, Sample, CAPACITY, SAMPLE_LIMIT};

fn empty() -> SaleLedger {
    SaleLedger::new(Amounts { color: vec![], size: vec![], detail: vec![] })
}

fn sample(date: i32, count: i64) -> Sample {
    Sample { date, count, visitors: 0 }
}

#[test]
fn empty_ledger_sums_to_zero() {
    let ledger = empty();
    assert_eq!(ledger.rolling_sum(30), 0);
    assert_eq!(ledger.rolling_visitors(30), 0);
    assert_eq!(ledger.rolling_sum(0), 0);
    assert!(ledger.check());
}

#[test]
fn rolling_sum_takes_the_newest_samples() {
    let mut ledger = empty();
    assert!(ledger.append_or_merge(sample(20240101, 5), Merge::Keep));
    assert!(ledger.append_or_merge(sample(20240102, 3), Merge::Keep));
    assert!(ledger.append_or_merge(sample(20240103, 7), Merge::Keep));
    assert_eq!(ledger.rolling_sum(2), 10);
    assert_eq!(ledger.rolling_sum(1), 7);
    assert_eq!(ledger.rolling_sum(3), 15);
    assert_eq!(ledger.rolling_sum(30), 15);
    assert_eq!(ledger.rolling_sum(0), 0);
}

#[test]
fn rolling_visitors_are_summed_apart() {
    let mut ledger = empty();
    ledger.append_or_merge(Sample { date: 20240101, count: 1, visitors: 10 }, Merge::Keep);
    ledger.append_or_merge(Sample { date: 20240102, count: 2, visitors: 20 }, Merge::Keep);
    assert_eq!(ledger.rolling_visitors(1), 20);
    assert_eq!(ledger.rolling_visitors(30), 30);
    assert_eq!(ledger.rolling_sum(30), 3);
}

#[test]
fn newest_sample_is_first() {
    let mut ledger = empty();
    ledger.append_or_merge(sample(20240101, 5), Merge::Keep);
    ledger.append_or_merge(sample(20240102, 3), Merge::Keep);
    assert_eq!(ledger.samples[0], sample(20240102, 3));
    assert_eq!(ledger.samples[1], sample(20240101, 5));
    assert!(ledger.covers_day(20240102));
    assert!(!ledger.covers_day(20240101));
}

#[test]
fn same_day_keeps_by_default() {
    let mut ledger = empty();
    ledger.append_or_merge(sample(20240101, 5), Merge::Keep);
    assert!(ledger.append_or_merge(sample(20240101, 9), Merge::Keep));
    assert_eq!(ledger.samples.len(), 1);
    assert_eq!(ledger.samples[0].count, 5);
}

#[test]
fn same_day_overwrites_or_accumulates() {
    let mut ledger = empty();
    ledger.append_or_merge(sample(20240101, 5), Merge::Keep);
    assert!(ledger.append_or_merge(sample(20240101, 9), Merge::Overwrite));
    assert_eq!(ledger.samples.len(), 1);
    assert_eq!(ledger.samples[0].count, 9);
    assert!(ledger.append_or_merge(
        Sample { date: 20240101, count: 2, visitors: 4 },
        Merge::Accumulate
    ));
    assert_eq!(ledger.samples.len(), 1);
    assert_eq!(ledger.samples[0], Sample { date: 20240101, count: 11, visitors: 4 });
}

#[test]
fn accumulate_beyond_the_limit_is_refused() {
    let mut ledger = empty();
    ledger.append_or_merge(sample(20240101, SAMPLE_LIMIT), Merge::Keep);
    assert!(!ledger.append_or_merge(sample(20240101, 1), Merge::Accumulate));
    assert_eq!(ledger.samples[0].count, SAMPLE_LIMIT);
}

#[test]
fn full_ledger_prunes_exactly_the_oldest() {
    let mut ledger = empty();
    for day in 0..400 {
        ledger.append_or_merge(sample(day, 1), Merge::Keep);
    }
    assert_eq!(ledger.samples.len(), CAPACITY);
    assert_eq!(ledger.samples[399].date, 0);
    ledger.append_or_merge(sample(400, 1), Merge::Keep);
    assert_eq!(ledger.samples.len(), 400);
    assert_eq!(ledger.samples[0].date, 400);
    assert_eq!(ledger.samples[399].date, 1);
    assert_eq!(ledger.samples[398].date, 2);
    assert_eq!(ledger.rolling_sum(1000), 400);
}

#[test]
fn sample_limit_is_a_four_hundredth_of_the_range() {
    assert_eq!(SAMPLE_LIMIT, i64::MAX / 400);
    assert_eq!(Sample::new(1, SAMPLE_LIMIT, -SAMPLE_LIMIT), Some(Sample {
        date: 1,
        count: SAMPLE_LIMIT,
        visitors: -SAMPLE_LIMIT
    }));
    assert_eq!(Sample::new(1, SAMPLE_LIMIT + 1, 0), None);
    assert_eq!(Sample::new(1, 0, -SAMPLE_LIMIT - 1), None);
}

#[test]
fn check_tells_an_overfull_ledger() {
    let mut ledger = empty();
    for day in 0..401 {
        ledger.samples.push(sample(day, 1));
    }
    assert!(!ledger.check());
    let mut ledger = empty();
    ledger.samples.push(sample(1, SAMPLE_LIMIT + 1));
    assert!(!ledger.check());
}
