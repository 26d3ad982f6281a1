//! Trust filter for raw availability counters.
//!
//! A dimension (colour, size, fine-grained SKU) is a list of keyed
//! quantities. The filter turns two successive readings of a dimension into
//! a per-key sold quantity and clamps what is implausible.

use vstd::prelude::*;

verus! {

/// Largest sale of one colour or one size that is believed for one period.
pub const COARSE_MAX: i64 = 500;

/// Largest sale of one fine-grained SKU that is believed for one period.
pub const FINE_MAX: i64 = 200;

/// One key of a dimension with its quantity.
#[derive(Debug)]
pub struct Entry {
    pub key: String,
    pub count: i64,
}

impl View for Entry {
    type V = (Seq<char>, int);

    open spec fn view(&self) -> (Seq<char>, int) {
        (self.key@, self.count as int)
    }
}

/// The remaining or sold quantities of a listing, by colour, by size and by
/// fine-grained SKU.
#[derive(Debug)]
pub struct Amounts {
    pub color: Vec<Entry>,
    pub size: Vec<Entry>,
    pub detail: Vec<Entry>,
}

/// What an `Amounts` value stands for.
pub ghost struct AmountsView {
    pub color: Seq<(Seq<char>, int)>,
    pub size: Seq<(Seq<char>, int)>,
    pub detail: Seq<(Seq<char>, int)>,
}

impl View for Amounts {
    type V = AmountsView;

    open spec fn view(&self) -> AmountsView {
        AmountsView {
            color: counts_of(self.color@),
            size: counts_of(self.size@),
            detail: counts_of(self.detail@),
        }
    }
}

/// The keyed quantities that a list of entries stands for, in order.
pub open spec fn counts_of(entries: Seq<Entry>) -> Seq<(Seq<char>, int)> {
    Seq::new(entries.len(), |i: int| entries[i]@)
}

/// `at` is the index of the first entry with `key`, or the length where
/// there is none.
pub open spec fn first_at(counts: Seq<(Seq<char>, int)>, key: Seq<char>, at: int) -> bool {
    &&& 0 <= at <= counts.len()
    &&& at < counts.len() ==> counts[at].0 == key
    &&& forall|j: int| 0 <= j < at ==> (#[trigger] counts[j]).0 != key
}

/// Index of the first entry with `key`; the length where there is none.
pub open spec fn position(counts: Seq<(Seq<char>, int)>, key: Seq<char>) -> int {
    choose|at: int| first_at(counts, key, at)
}

/// The quantity recorded under `key`, if any.
pub open spec fn find(counts: Seq<(Seq<char>, int)>, key: Seq<char>) -> Option<int> {
    let at = position(counts, key);
    if 0 <= at < counts.len() {
        Some(counts[at].1)
    } else {
        None
    }
}

/// There is exactly one first position.
pub proof fn lemma_position(counts: Seq<(Seq<char>, int)>, key: Seq<char>, at: int)
    requires
        first_at(counts, key, at),
    ensures
        position(counts, key) == at,
{
    let chosen = position(counts, key);
    assert(first_at(counts, key, chosen));
    if chosen < at {
        assert(counts[chosen].0 != key);
    } else if at < chosen {
        assert(counts[at].0 != key);
    }
}

/// Units sold between two readings of one counter: the drop from
/// `previous` to `current`, no less than 0 and no more than `max`.
pub open spec fn trusted_delta(previous: int, current: int, max: int) -> int {
    let raw = previous - current;
    if raw < 0 {
        0
    } else if raw > max {
        max
    } else {
        raw
    }
}

/// Units sold under `key`, whose new reading is `current`: nothing where the
/// key was not read before.
pub open spec fn key_delta(
    previous: Seq<(Seq<char>, int)>,
    key: Seq<char>,
    current: int,
    max: int,
) -> int {
    match find(previous, key) {
        Some(before) => trusted_delta(before, current, max),
        None => 0,
    }
}

/// The sold quantity of every key of the new reading, in its order.
pub open spec fn period_deltas(
    previous: Seq<(Seq<char>, int)>,
    current: Seq<(Seq<char>, int)>,
    max: int,
) -> Seq<(Seq<char>, int)> {
    Seq::new(
        current.len(),
        |i: int| (current[i].0, key_delta(previous, current[i].0, current[i].1, max)),
    )
}

/// Sum of the quantities.
pub open spec fn total(counts: Seq<(Seq<char>, int)>) -> int
    decreases counts.len(),
{
    if counts.len() == 0 {
        0
    } else {
        total(counts.drop_last()) + counts.last().1
    }
}

/// `amount` more under `key`: added to the first entry with that key, or
/// recorded as a new last entry. `None` where the sum leaves the range of a
/// 64-bit counter.
pub open spec fn add_count(
    totals: Seq<(Seq<char>, int)>,
    key: Seq<char>,
    amount: int,
) -> Option<Seq<(Seq<char>, int)>> {
    let at = position(totals, key);
    if 0 <= at < totals.len() {
        let sum = totals[at].1 + amount;
        if i64::MIN <= sum <= i64::MAX {
            Some(totals.update(at, (key, sum)))
        } else {
            None
        }
    } else {
        Some(totals.push((key, amount)))
    }
}

/// Every quantity of `deltas` added to `totals`, first to last. `None` as
/// soon as one sum leaves the range of a 64-bit counter.
pub open spec fn accumulated(
    totals: Seq<(Seq<char>, int)>,
    deltas: Seq<(Seq<char>, int)>,
) -> Option<Seq<(Seq<char>, int)>>
    decreases deltas.len(),
{
    if deltas.len() == 0 {
        Some(totals)
    } else {
        match accumulated(totals, deltas.drop_last()) {
            Some(sums) => add_count(sums, deltas.last().0, deltas.last().1),
            None => None,
        }
    }
}

/// Clamps the drop between two readings of one counter.
pub fn sold_delta(previous: i64, current: i64, max: i64) -> (delta: i64)
    requires
        0 <= max,
    ensures
        delta == trusted_delta(previous as int, current as int, max as int),
        0 <= delta <= max,
{
    if previous <= current {
        0
    } else {
        let raw: i128 = previous as i128 - current as i128;
        if raw > max as i128 {
            max
        } else {
            raw as i64
        }
    }
}

/// Finds the first entry with `key`.
pub fn locate(entries: &Vec<Entry>, key: &String) -> (at: usize)
    ensures
        first_at(counts_of(entries@), key@, at as int),
        at as int == position(counts_of(entries@), key@),
{
    let mut i: usize = 0;
    while i < entries.len()
        invariant
            i <= entries.len(),
            forall|j: int| 0 <= j < i ==> (#[trigger] counts_of(entries@)[j]).0 != key@,
        decreases entries.len() - i,
    {
        if entries[i].key == *key {
            proof {
                lemma_position(counts_of(entries@), key@, i as int);
            }
            return i;
        }
        i += 1;
    }
    proof {
        lemma_position(counts_of(entries@), key@, i as int);
    }
    i
}

/// The quantity recorded under `key`, if any.
pub fn lookup(entries: &Vec<Entry>, key: &String) -> (found: Option<i64>)
    ensures
        match found {
            Some(count) => find(counts_of(entries@), key@) == Some(count as int),
            None => find(counts_of(entries@), key@).is_none(),
        },
{
    let at = locate(entries, key);
    if at < entries.len() {
        Some(entries[at].count)
    } else {
        None
    }
}

/// Runs the filter over one dimension: for each key of the new reading, the
/// clamped drop since the previous reading, and 0 for a key that has just
/// appeared.
pub fn period_sales(previous: &Vec<Entry>, current: &Vec<Entry>, max: i64) -> (deltas: Vec<Entry>)
    requires
        0 <= max,
    ensures
        counts_of(deltas@) == period_deltas(
            counts_of(previous@),
            counts_of(current@),
            max as int,
        ),
{
    let mut deltas: Vec<Entry> = Vec::new();
    let mut i: usize = 0;
    while i < current.len()
        invariant
            0 <= max,
            i <= current.len(),
            deltas.len() == i,
            forall|j: int|
                0 <= j < i ==> (#[trigger] deltas[j])@ == period_deltas(
                    counts_of(previous@),
                    counts_of(current@),
                    max as int,
                )[j],
        decreases current.len() - i,
    {
        let sold = match lookup(previous, &current[i].key) {
            Some(before) => sold_delta(before, current[i].count, max),
            None => 0,
        };
        deltas.push(Entry { key: current[i].key.clone(), count: sold });
        i += 1;
    }
    assert(counts_of(deltas@) =~= period_deltas(
        counts_of(previous@),
        counts_of(current@),
        max as int,
    ));
    deltas
}

/// Adds up the quantities of a dimension. `None` where the sum does not fit
/// a 64-bit counter.
pub fn sum_counts(entries: &Vec<Entry>) -> (sum: Option<i64>)
    ensures
        sum == if i64::MIN <= total(counts_of(entries@)) <= i64::MAX {
            Some(total(counts_of(entries@)) as i64)
        } else {
            None
        },
{
    let mut acc: i128 = 0;
    let mut i: usize = 0;
    while i < entries.len()
        invariant
            i <= entries.len(),
            acc == total(counts_of(entries@).take(i as int)),
            -(i as int) * 0x8000_0000_0000_0000 <= acc <= (i as int) * 0x8000_0000_0000_0000,
        decreases entries.len() - i,
    {
        proof {
            let counts = counts_of(entries@);
            assert(counts.take(i + 1).drop_last() =~= counts.take(i as int));
            assert(counts.take(i + 1).last() == counts[i as int]);
            assert((i as int + 1) * 0x8000_0000_0000_0000 == (i as int) * 0x8000_0000_0000_0000
                + 0x8000_0000_0000_0000) by (nonlinear_arith);
            assert((i as int + 1) * 0x8000_0000_0000_0000 <= 0x1_0000_0000_0000_0000
                * 0x8000_0000_0000_0000) by (nonlinear_arith)
                requires
                    i as int + 1 <= 0x1_0000_0000_0000_0000,
            ;
        }
        acc = acc + entries[i].count as i128;
        i += 1;
    }
    proof {
        assert(counts_of(entries@).take(i as int) =~= counts_of(entries@));
    }
    if acc < i64::MIN as i128 || acc > i64::MAX as i128 {
        None
    } else {
        Some(acc as i64)
    }
}

/// Adds `amount` under `key`.
pub fn add_to(totals: Vec<Entry>, key: &String, amount: i64) -> (sums: Option<Vec<Entry>>)
    ensures
        match sums {
            Some(entries) => add_count(counts_of(totals@), key@, amount as int) == Some(
                counts_of(entries@),
            ),
            None => add_count(counts_of(totals@), key@, amount as int).is_none(),
        },
{
    let mut totals = totals;
    let ghost before = counts_of(totals@);
    let at = locate(&totals, key);
    if at < totals.len() {
        match totals[at].count.checked_add(amount) {
            Some(sum) => {
                totals.set(at, Entry { key: key.clone(), count: sum });
                assert(counts_of(totals@) =~= before.update(at as int, (key@, sum as int)));
                Some(totals)
            },
            None => None,
        }
    } else {
        totals.push(Entry { key: key.clone(), count: amount });
        assert(counts_of(totals@) =~= before.push((key@, amount as int)));
        Some(totals)
    }
}

/// Adds the sold quantities of one period to the cumulative sale counts of a
/// dimension.
pub fn accumulate(totals: Vec<Entry>, deltas: &Vec<Entry>) -> (sums: Option<Vec<Entry>>)
    ensures
        match sums {
            Some(entries) => accumulated(counts_of(totals@), counts_of(deltas@)) == Some(
                counts_of(entries@),
            ),
            None => accumulated(counts_of(totals@), counts_of(deltas@)).is_none(),
        },
{
    let ghost start = counts_of(totals@);
    let ghost all = counts_of(deltas@);
    let mut sums = totals;
    let mut i: usize = 0;
    while i < deltas.len()
        invariant
            i <= deltas.len(),
            start == counts_of(totals@),
            all == counts_of(deltas@),
            accumulated(start, all.take(i as int)) == Some(counts_of(sums@)),
        decreases deltas.len() - i,
    {
        proof {
            assert(all.take(i + 1).drop_last() =~= all.take(i as int));
            assert(all.take(i + 1).last() == all[i as int]);
        }
        match add_to(sums, &deltas[i].key, deltas[i].count) {
            Some(next) => {
                sums = next;
            },
            None => {
                proof {
                    assert(accumulated(start, all.take(i + 1)).is_none());
                    lemma_overflow_stays(start, all, i + 1);
                }
                return None;
            },
        }
        i += 1;
    }
    proof {
        assert(all.take(i as int) =~= all);
    }
    Some(sums)
}

/// The same keys, each with the quantity 0.
pub open spec fn zeroed(counts: Seq<(Seq<char>, int)>) -> Seq<(Seq<char>, int)> {
    Seq::new(counts.len(), |i: int| (counts[i].0, 0int))
}

/// The sold quantities of one period in all three dimensions: colours and
/// sizes clamped at `COARSE_MAX`, fine-grained SKUs at `FINE_MAX`.
pub open spec fn period_amounts(previous: AmountsView, current: AmountsView) -> AmountsView {
    AmountsView {
        color: period_deltas(previous.color, current.color, COARSE_MAX as int),
        size: period_deltas(previous.size, current.size, COARSE_MAX as int),
        detail: period_deltas(previous.detail, current.detail, FINE_MAX as int),
    }
}

/// The sold quantities of one period added to the cumulative ones, in each
/// dimension. `None` where a sum leaves the range of a 64-bit counter.
pub open spec fn accumulated_amounts(totals: AmountsView, deltas: AmountsView) -> Option<
    AmountsView,
> {
    match (
        accumulated(totals.color, deltas.color),
        accumulated(totals.size, deltas.size),
        accumulated(totals.detail, deltas.detail),
    ) {
        (Some(color), Some(size), Some(detail)) => Some(AmountsView { color, size, detail }),
        _ => None,
    }
}

/// The same keys and quantities.
pub fn copy_entries(entries: &Vec<Entry>) -> (copy: Vec<Entry>)
    ensures
        counts_of(copy@) == counts_of(entries@),
{
    let mut copy: Vec<Entry> = Vec::new();
    let mut i: usize = 0;
    while i < entries.len()
        invariant
            i <= entries.len(),
            copy.len() == i,
            forall|j: int| 0 <= j < i ==> (#[trigger] copy[j])@ == entries[j]@,
        decreases entries.len() - i,
    {
        copy.push(Entry { key: entries[i].key.clone(), count: entries[i].count });
        i += 1;
    }
    assert(counts_of(copy@) =~= counts_of(entries@));
    copy
}

/// The same keys with nothing sold yet.
pub fn zero_entries(entries: &Vec<Entry>) -> (zeros: Vec<Entry>)
    ensures
        counts_of(zeros@) == zeroed(counts_of(entries@)),
{
    let mut zeros: Vec<Entry> = Vec::new();
    let mut i: usize = 0;
    while i < entries.len()
        invariant
            i <= entries.len(),
            zeros.len() == i,
            forall|j: int| 0 <= j < i ==> (#[trigger] zeros[j])@ == (entries[j].key@, 0int),
        decreases entries.len() - i,
    {
        zeros.push(Entry { key: entries[i].key.clone(), count: 0 });
        i += 1;
    }
    assert(counts_of(zeros@) =~= zeroed(counts_of(entries@)));
    zeros
}

impl Amounts {
    /// The same quantities.
    pub fn copy(&self) -> (copy: Amounts)
        ensures
            copy@ == self@,
    {
        Amounts {
            color: copy_entries(&self.color),
            size: copy_entries(&self.size),
            detail: copy_entries(&self.detail),
        }
    }

    /// The same keys with nothing sold yet.
    pub fn zeros(&self) -> (zeros: Amounts)
        ensures
            zeros@ == (AmountsView {
                color: zeroed(self@.color),
                size: zeroed(self@.size),
                detail: zeroed(self@.detail),
            }),
    {
        Amounts {
            color: zero_entries(&self.color),
            size: zero_entries(&self.size),
            detail: zero_entries(&self.detail),
        }
    }

    /// Runs the trust filter over the three dimensions of two successive
    /// readings.
    pub fn sold_since(&self, previous: &Amounts) -> (deltas: Amounts)
        ensures
            deltas@ == period_amounts(previous@, self@),
    {
        Amounts {
            color: period_sales(&previous.color, &self.color, COARSE_MAX),
            size: period_sales(&previous.size, &self.size, COARSE_MAX),
            detail: period_sales(&previous.detail, &self.detail, FINE_MAX),
        }
    }

    /// Adds the sold quantities of one period to these cumulative ones.
    pub fn plus(&self, deltas: &Amounts) -> (sums: Option<Amounts>)
        ensures
            match sums {
                Some(amounts) => accumulated_amounts(self@, deltas@) == Some(amounts@),
                None => accumulated_amounts(self@, deltas@).is_none(),
            },
    {
        let color = accumulate(copy_entries(&self.color), &deltas.color);
        let size = accumulate(copy_entries(&self.size), &deltas.size);
        let detail = accumulate(copy_entries(&self.detail), &deltas.detail);
        match (color, size, detail) {
            (Some(color), Some(size), Some(detail)) => Some(Amounts { color, size, detail }),
            _ => None,
        }
    }
}

/// What the filter hands out lies between 0 and the clamp, so the total of
/// a dimension is at least 0 and at most the clamp for each key.
pub proof fn lemma_total_bounds(deltas: Seq<(Seq<char>, int)>, max: int)
    requires
        0 <= max,
        forall|i: int| 0 <= i < deltas.len() ==> 0 <= (#[trigger] deltas[i]).1 <= max,
    ensures
        0 <= total(deltas) <= deltas.len() * max,
    decreases deltas.len(),
{
    if deltas.len() > 0 {
        lemma_total_bounds(deltas.drop_last(), max);
        assert(deltas.len() * max == (deltas.len() - 1) * max + max) by (nonlinear_arith);
    }
}

/// How many of the first `n` entries bring a key that no entry before them
/// has: the number of distinct keys among them.
pub open spec fn key_count(counts: Seq<(Seq<char>, int)>, n: int) -> int
    decreases n,
{
    if n <= 0 {
        0
    } else if position(counts, counts[n - 1].0) == n - 1 {
        key_count(counts, n - 1) + 1
    } else {
        key_count(counts, n - 1)
    }
}

/// Counts the distinct keys of a dimension.
pub fn distinct_keys(entries: &Vec<Entry>) -> (keys: usize)
    ensures
        keys == key_count(counts_of(entries@), entries@.len() as int),
        keys <= entries@.len(),
{
    let mut keys: usize = 0;
    let mut i: usize = 0;
    while i < entries.len()
        invariant
            i <= entries.len(),
            keys <= i,
            keys == key_count(counts_of(entries@), i as int),
        decreases entries.len() - i,
    {
        if locate(entries, &entries[i].key) == i {
            keys += 1;
        }
        i += 1;
    }
    keys
}

/// Once a prefix of the deltas has overflowed, so has the whole.
pub proof fn lemma_overflow_stays(
    totals: Seq<(Seq<char>, int)>,
    deltas: Seq<(Seq<char>, int)>,
    n: int,
)
    requires
        0 <= n <= deltas.len(),
        accumulated(totals, deltas.take(n)).is_none(),
    ensures
        accumulated(totals, deltas).is_none(),
    decreases deltas.len() - n,
{
    if n < deltas.len() {
        assert(deltas.take(n + 1).drop_last() =~= deltas.take(n));
        lemma_overflow_stays(totals, deltas, n + 1);
    } else {
        assert(deltas.take(n) =~= deltas);
    }
}

/// A first position from `from` on, where no entry before `from` has the
/// key.
proof fn first_from(counts: Seq<(Seq<char>, int)>, key: Seq<char>, from: int) -> (at: int)
    requires
        0 <= from <= counts.len(),
        forall|j: int| 0 <= j < from ==> (#[trigger] counts[j]).0 != key,
    ensures
        first_at(counts, key, at),
    decreases counts.len() - from,
{
    if from == counts.len() || counts[from].0 == key {
        from
    } else {
        first_from(counts, key, from + 1)
    }
}

/// Every key has its first position.
pub proof fn lemma_position_is_first(counts: Seq<(Seq<char>, int)>, key: Seq<char>)
    ensures
        first_at(counts, key, position(counts, key)),
{
    let at = first_from(counts, key, 0);
}

/// No key occurs twice.
pub open spec fn keys_distinct(counts: Seq<(Seq<char>, int)>) -> bool {
    forall|i: int, j: int|
        0 <= i < j < counts.len() ==> (#[trigger] counts[i]).0 != (#[trigger] counts[j]).0
}

/// The quantity under `key` after `amount` was added under `to`: the sum
/// where the two keys are the same, and what it was before where they
/// differ.
pub proof fn lemma_add_count_by_key(
    totals: Seq<(Seq<char>, int)>,
    to: Seq<char>,
    amount: int,
    key: Seq<char>,
)
    requires
        add_count(totals, to, amount).is_some(),
    ensures
        find(add_count(totals, to, amount).unwrap(), key) == if key == to {
            Some(find(totals, to).unwrap_or(0) + amount)
        } else {
            find(totals, key)
        },
{
    let after = add_count(totals, to, amount).unwrap();
    let at = position(totals, to);
    let p = position(totals, key);
    lemma_position_is_first(totals, to);
    lemma_position_is_first(totals, key);
    if 0 <= at < totals.len() {
        assert forall|j: int| 0 <= j < after.len() implies (#[trigger] after[j]).0
            == totals[j].0 by {}
        assert(first_at(after, key, p)) by {
            assert forall|j: int| 0 <= j < p implies (#[trigger] after[j]).0 != key by {
                assert(totals[j].0 != key);
            }
        }
        lemma_position(after, key, p);
        if key == to {
            lemma_position(totals, to, p);
        } else if p < totals.len() {
            assert(p != at);
        }
    } else {
        lemma_position(totals, to, totals.len() as int);
        if key == to {
            assert(first_at(after, key, totals.len() as int)) by {
                assert forall|j: int| 0 <= j < totals.len() implies (#[trigger] after[j]).0
                    != key by {
                    assert(totals[j].0 != key);
                }
            }
            lemma_position(after, key, totals.len() as int);
        } else if p < totals.len() {
            assert(first_at(after, key, p)) by {
                assert forall|j: int| 0 <= j < p implies (#[trigger] after[j]).0 != key by {
                    assert(totals[j].0 != key);
                }
            }
            lemma_position(after, key, p);
        } else {
            assert(first_at(after, key, after.len() as int)) by {
                assert forall|j: int| 0 <= j < after.len() implies (#[trigger] after[j]).0
                    != key by {
                    if j < totals.len() {
                        assert(totals[j].0 != key);
                    }
                }
            }
            lemma_position(after, key, after.len() as int);
        }
    }
}

/// Where no key of the period occurs twice, the cumulative count of each of
/// its keys grows by that key's quantity, a key that was not counted before
/// starts from 0, and the count of every other key stays as it was.
pub proof fn lemma_accumulated_by_key(
    totals: Seq<(Seq<char>, int)>,
    deltas: Seq<(Seq<char>, int)>,
    key: Seq<char>,
)
    requires
        keys_distinct(deltas),
        accumulated(totals, deltas).is_some(),
    ensures
        find(accumulated(totals, deltas).unwrap(), key) == match find(deltas, key) {
            Some(sold) => Some(find(totals, key).unwrap_or(0) + sold),
            None => find(totals, key),
        },
    decreases deltas.len(),
{
    if deltas.len() == 0 {
        lemma_position(deltas, key, 0);
    } else {
        let init = deltas.drop_last();
        let last = deltas.last();
        let n = init.len() as int;
        assert(keys_distinct(init)) by {
            assert forall|i: int, j: int| 0 <= i < j < init.len() implies (#[trigger] init[i]).0 != (
            #[trigger] init[j]).0 by {
                assert(deltas[i].0 != deltas[j].0);
            }
        }
        let sums = accumulated(totals, init).unwrap();
        lemma_accumulated_by_key(totals, init, key);
        lemma_add_count_by_key(sums, last.0, last.1, key);
        let p = position(init, key);
        lemma_position_is_first(init, key);
        if key == last.0 {
            assert(first_at(deltas, key, n)) by {
                assert forall|j: int| 0 <= j < n implies (#[trigger] deltas[j]).0 != key by {
                    assert(deltas[j].0 != deltas[n].0);
                }
            }
            lemma_position(deltas, key, n);
            assert(first_at(init, key, n)) by {
                assert forall|j: int| 0 <= j < n implies (#[trigger] init[j]).0 != key by {
                    assert(deltas[j].0 != deltas[n].0);
                }
            }
            lemma_position(init, key, n);
        } else if p < n {
            assert(first_at(deltas, key, p)) by {
                assert forall|j: int| 0 <= j < p implies (#[trigger] deltas[j]).0 != key by {
                    assert(init[j].0 != key);
                }
            }
            lemma_position(deltas, key, p);
        } else {
            assert(first_at(deltas, key, deltas.len() as int)) by {
                assert forall|j: int| 0 <= j < deltas.len() implies (#[trigger] deltas[j]).0
                    != key by {
                    if j < n {
                        assert(init[j].0 != key);
                    }
                }
            }
            lemma_position(deltas, key, deltas.len() as int);
        }
    }
}

/// The trust filter keeps the keys of the new reading, so where no key of
/// the reading occurs twice none of its sold quantities does.
pub proof fn lemma_period_keys(
    previous: Seq<(Seq<char>, int)>,
    current: Seq<(Seq<char>, int)>,
    max: int,
)
    requires
        keys_distinct(current),
    ensures
        keys_distinct(period_deltas(previous, current, max)),
        forall|key: Seq<char>|
            find(period_deltas(previous, current, max), key) == match #[trigger] find(
                current,
                key,
            ) {
                Some(reading) => Some(key_delta(previous, key, reading, max)),
                None => None,
            },
{
    let deltas = period_deltas(previous, current, max);
    assert forall|i: int, j: int| 0 <= i < j < deltas.len() implies (#[trigger] deltas[i]).0 != (
    #[trigger] deltas[j]).0 by {
        assert(current[i].0 != current[j].0);
    }
    assert forall|key: Seq<char>|
        find(deltas, key) == match #[trigger] find(current, key) {
            Some(reading) => Some(key_delta(previous, key, reading, max)),
            None => None,
        } by {
        let p = position(current, key);
        lemma_position_is_first(current, key);
        assert(first_at(deltas, key, p)) by {
            assert forall|j: int| 0 <= j < p implies (#[trigger] deltas[j]).0 != key by {
                assert(current[j].0 != key);
            }
        }
        lemma_position(deltas, key, p);
    }
}

} // verus!
