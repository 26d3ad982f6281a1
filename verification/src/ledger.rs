//! The sale ledger: a bounded log of dated samples, newest first.

use vstd::prelude::*;
use crate::delta::Amounts;

verus! {

/// Most samples that a ledger keeps; the oldest leave first.
pub const CAPACITY: usize = 400;

/// Largest magnitude of one figure of a sample. A full ledger of such
/// figures still adds up within a 64-bit counter.
pub const SAMPLE_LIMIT: i64 = 23_058_430_092_136_939;

/// The figures of one calendar day: units sold and unique visitors. A day is
/// written as year * 10000 + month * 100 + day of month.
#[derive(Clone, Copy, Debug, PartialEq, Eq, Structural)]
pub struct Sample {
    pub date: i32,
    pub count: i64,
    pub visitors: i64,
}

/// What happens to a sample that arrives on the day of the newest entry.
#[derive(Clone, Copy, Debug, PartialEq, Eq, Structural)]
pub enum Merge {
    /// The stored entry stays as it is.
    Keep,
    /// The arriving sample takes the entry's place.
    Overwrite,
    /// The arriving figures are added to the entry's.
    Accumulate,
}

/// Dated samples of one listing, newest first, with the remaining
/// quantities that were read last.
#[derive(Debug)]
pub struct SaleLedger {
    pub samples: Vec<Sample>,
    pub remaining: Amounts,
}

/// Both figures are within the limit.
pub open spec fn sample_fits(sample: Sample) -> bool {
    &&& -SAMPLE_LIMIT <= sample.count <= SAMPLE_LIMIT
    &&& -SAMPLE_LIMIT <= sample.visitors <= SAMPLE_LIMIT
}

/// At most `CAPACITY` samples, each within the limit.
pub open spec fn samples_fit(samples: Seq<Sample>) -> bool {
    &&& samples.len() <= CAPACITY
    &&& forall|i: int| 0 <= i < samples.len() ==> sample_fits(#[trigger] samples[i])
}

/// Units sold over all the samples.
pub open spec fn sum_sales(samples: Seq<Sample>) -> int
    decreases samples.len(),
{
    if samples.len() == 0 {
        0
    } else {
        sum_sales(samples.drop_last()) + samples.last().count
    }
}

/// Visitors over all the samples.
pub open spec fn sum_visitors(samples: Seq<Sample>) -> int
    decreases samples.len(),
{
    if samples.len() == 0 {
        0
    } else {
        sum_visitors(samples.drop_last()) + samples.last().visitors
    }
}

/// The `window` newest samples, or all where there are fewer.
pub open spec fn recent(samples: Seq<Sample>, window: int) -> Seq<Sample> {
    if window <= 0 {
        Seq::empty()
    } else if window < samples.len() {
        samples.take(window)
    } else {
        samples
    }
}

/// The newest entry is of the day `date`.
pub open spec fn covers(samples: Seq<Sample>, date: int) -> bool {
    samples.len() > 0 && samples[0].date == date
}

/// The figures of `entry` and `sample` added, under the entry's date.
pub open spec fn summed(entry: Sample, sample: Sample) -> (int, int) {
    (entry.count + sample.count, entry.visitors + sample.visitors)
}

/// `sample` placed in front, and the oldest entries dropped down to the
/// capacity.
pub open spec fn pushed(samples: Seq<Sample>, sample: Sample) -> Seq<Sample> {
    let grown = seq![sample] + samples;
    if grown.len() > CAPACITY {
        grown.take(CAPACITY as int)
    } else {
        grown
    }
}

/// The ledger after `sample` has arrived.
pub open spec fn merged(samples: Seq<Sample>, sample: Sample, merge: Merge) -> Seq<Sample> {
    if covers(samples, sample.date as int) {
        match merge {
            Merge::Keep => samples,
            Merge::Overwrite => samples.update(0, sample),
            Merge::Accumulate => {
                let (count, visitors) = summed(samples[0], sample);
                if -SAMPLE_LIMIT <= count <= SAMPLE_LIMIT && -SAMPLE_LIMIT <= visitors
                    <= SAMPLE_LIMIT {
                    samples.update(
                        0,
                        Sample {
                            date: sample.date,
                            count: count as i64,
                            visitors: visitors as i64,
                        },
                    )
                } else {
                    samples
                }
            },
        }
    } else {
        pushed(samples, sample)
    }
}

/// Whether the arriving sample was taken in: always, but for figures that
/// would add up beyond the limit.
pub open spec fn accepted(samples: Seq<Sample>, sample: Sample, merge: Merge) -> bool {
    if covers(samples, sample.date as int) && merge == Merge::Accumulate {
        let (count, visitors) = summed(samples[0], sample);
        -SAMPLE_LIMIT <= count <= SAMPLE_LIMIT && -SAMPLE_LIMIT <= visitors <= SAMPLE_LIMIT
    } else {
        true
    }
}

impl Sample {
    /// A sample of `count` units sold and `visitors` visitors on `date`;
    /// `None` where a figure is beyond the limit.
    pub fn new(date: i32, count: i64, visitors: i64) -> (made: Option<Sample>)
        ensures
            made == if sample_fits(Sample { date, count, visitors }) {
                Some(Sample { date, count, visitors })
            } else {
                None
            },
    {
        if -SAMPLE_LIMIT <= count && count <= SAMPLE_LIMIT && -SAMPLE_LIMIT <= visitors && visitors
            <= SAMPLE_LIMIT {
            Some(Sample { date, count, visitors })
        } else {
            None
        }
    }
}

impl SaleLedger {
    /// The ledger holds what it may hold.
    pub open spec fn wf(&self) -> bool {
        samples_fit(self.samples@)
    }

    /// A ledger without samples.
    pub fn new(remaining: Amounts) -> (ledger: SaleLedger)
        ensures
            ledger.samples@.len() == 0,
            ledger.remaining == remaining,
            ledger.wf(),
    {
        SaleLedger { samples: Vec::new(), remaining }
    }

    /// Tests what `wf` states.
    pub fn check(&self) -> (good: bool)
        ensures
            good == self.wf(),
    {
        if self.samples.len() > CAPACITY {
            return false;
        }
        let mut i: usize = 0;
        while i < self.samples.len()
            invariant
                i <= self.samples.len(),
                self.samples.len() <= CAPACITY,
                forall|j: int| 0 <= j < i ==> sample_fits(#[trigger] self.samples@[j]),
            decreases self.samples.len() - i,
        {
            let sample = self.samples[i];
            if !(-SAMPLE_LIMIT <= sample.count && sample.count <= SAMPLE_LIMIT && -SAMPLE_LIMIT
                <= sample.visitors && sample.visitors <= SAMPLE_LIMIT) {
                return false;
            }
            i += 1;
        }
        true
    }

    /// Whether the newest entry is of the day `date`.
    pub fn covers_day(&self, date: i32) -> (same: bool)
        ensures
            same == covers(self.samples@, date as int),
    {
        self.samples.len() > 0 && self.samples[0].date == date
    }

    /// Takes in the sample of a day. On the day of the newest entry it is
    /// merged as `merge` says; on another day it becomes the newest entry,
    /// and the oldest entries leave until the capacity holds.
    pub fn append_or_merge(&mut self, sample: Sample, merge: Merge) -> (stored: bool)
        requires
            old(self).wf(),
            sample_fits(sample),
        ensures
            final(self).wf(),
            final(self).samples@ == merged(old(self).samples@, sample, merge),
            final(self).remaining == old(self).remaining,
            stored == accepted(old(self).samples@, sample, merge),
            final(self).samples@.len() <= CAPACITY,
    {
        if self.samples.len() > 0 && self.samples[0].date == sample.date {
            match merge {
                Merge::Keep => true,
                Merge::Overwrite => {
                    self.samples.set(0, sample);
                    true
                },
                Merge::Accumulate => {
                    let entry = self.samples[0];
                    let count = entry.count + sample.count;
                    let visitors = entry.visitors + sample.visitors;
                    if -SAMPLE_LIMIT <= count && count <= SAMPLE_LIMIT && -SAMPLE_LIMIT
                        <= visitors && visitors <= SAMPLE_LIMIT {
                        self.samples.set(0, Sample { date: sample.date, count, visitors });
                        true
                    } else {
                        false
                    }
                },
            }
        } else {
            self.samples.insert(0, sample);
            assert(self.samples@ =~= seq![sample] + old(self).samples@);
            while self.samples.len() > CAPACITY
                invariant
                    self.samples@.len() <= CAPACITY + 1,
                    self.samples@.len() > CAPACITY ==> self.samples@ == seq![sample] + old(
                        self,
                    ).samples@,
                    self.samples@ == pushed(old(self).samples@, sample) || self.samples@.len()
                        > CAPACITY,
                    self.remaining == old(self).remaining,
                    forall|i: int|
                        0 <= i < self.samples@.len() ==> sample_fits(#[trigger] self.samples@[i]),
                decreases self.samples.len(),
            {
                self.samples.pop();
                assert(self.samples@ =~= pushed(old(self).samples@, sample));
            }
            true
        }
    }

    /// Units sold over the `window` newest samples, or over all the samples
    /// where there are fewer: then the figure covers less than the window.
    pub fn rolling_sum(&self, window: usize) -> (sum: i64)
        requires
            self.wf(),
        ensures
            sum == sum_sales(recent(self.samples@, window as int)),
    {
        let n = if window < self.samples.len() {
            window
        } else {
            self.samples.len()
        };
        let ghost part = recent(self.samples@, window as int);
        assert(part =~= self.samples@.take(n as int));
        let mut sum: i64 = 0;
        let mut i: usize = 0;
        while i < n
            invariant
                i <= n <= self.samples.len(),
                self.wf(),
                part == self.samples@.take(n as int),
                sum == sum_sales(part.take(i as int)),
                -(i as int) * SAMPLE_LIMIT <= sum <= (i as int) * SAMPLE_LIMIT,
            decreases n - i,
        {
            proof {
                assert(part.take(i + 1).drop_last() =~= part.take(i as int));
                assert(part.take(i + 1).last() == self.samples@[i as int]);
                assert(sample_fits(self.samples@[i as int]));
            }
            sum = sum + self.samples[i].count;
            i += 1;
        }
        proof {
            assert(part.take(i as int) =~= part);
        }
        sum
    }

    /// Visitors over the `window` newest samples, or over all the samples
    /// where there are fewer.
    pub fn rolling_visitors(&self, window: usize) -> (sum: i64)
        requires
            self.wf(),
        ensures
            sum == sum_visitors(recent(self.samples@, window as int)),
    {
        let n = if window < self.samples.len() {
            window
        } else {
            self.samples.len()
        };
        let ghost part = recent(self.samples@, window as int);
        assert(part =~= self.samples@.take(n as int));
        let mut sum: i64 = 0;
        let mut i: usize = 0;
        while i < n
            invariant
                i <= n <= self.samples.len(),
                self.wf(),
                part == self.samples@.take(n as int),
                sum == sum_visitors(part.take(i as int)),
                -(i as int) * SAMPLE_LIMIT <= sum <= (i as int) * SAMPLE_LIMIT,
            decreases n - i,
        {
            proof {
                assert(part.take(i + 1).drop_last() =~= part.take(i as int));
                assert(part.take(i + 1).last() == self.samples@[i as int]);
                assert(sample_fits(self.samples@[i as int]));
            }
            sum = sum + self.samples[i].visitors;
            i += 1;
        }
        proof {
            assert(part.take(i as int) =~= part);
        }
        sum
    }
}

/// A ledger never grows beyond its capacity, and a sample of a new day that
/// reaches a full ledger drives out exactly the oldest entry.
pub proof fn lemma_capacity(samples: Seq<Sample>, sample: Sample, merge: Merge)
    requires
        samples.len() <= CAPACITY,
    ensures
        merged(samples, sample, merge).len() <= CAPACITY,
        samples.len() == CAPACITY && !covers(samples, sample.date as int) ==> merged(
            samples,
            sample,
            merge,
        ) == seq![sample] + samples.drop_last(),
{
    if samples.len() == CAPACITY && !covers(samples, sample.date as int) {
        assert(merged(samples, sample, merge) =~= seq![sample] + samples.drop_last());
    }
}

/// A sample that arrives on the day of the newest entry leaves the number of
/// entries as it was, whatever the merge.
pub proof fn lemma_same_day_keeps_length(samples: Seq<Sample>, sample: Sample, merge: Merge)
    requires
        covers(samples, sample.date as int),
    ensures
        merged(samples, sample, merge).len() == samples.len(),
        merged(samples, sample, Merge::Keep) == samples,
{
}

/// No two neighbours are of the same day.
pub open spec fn days_differ(samples: Seq<Sample>) -> bool {
    forall|i: int| 0 <= i < samples.len() - 1 ==> (#[trigger] samples[i]).date != samples[i + 1].date
}

/// A ledger in which no two neighbours are of the same day stays so,
/// whatever sample arrives: a second sample of the newest day is merged, and
/// never stored beside the first.
pub proof fn lemma_one_sample_a_day(samples: Seq<Sample>, sample: Sample, merge: Merge)
    requires
        days_differ(samples),
    ensures
        days_differ(merged(samples, sample, merge)),
{
    let after = merged(samples, sample, merge);
    if covers(samples, sample.date as int) {
        assert forall|i: int| 0 <= i < after.len() - 1 implies (#[trigger] after[i]).date
            != after[i + 1].date by {
            assert(after[i].date == samples[i].date);
            assert(after[i + 1].date == samples[i + 1].date);
        }
    } else {
        let grown = seq![sample] + samples;
        assert forall|i: int| 0 <= i < after.len() - 1 implies (#[trigger] after[i]).date
            != after[i + 1].date by {
            assert(after[i] == grown[i]);
            assert(after[i + 1] == grown[i + 1]);
            if i > 0 {
                assert(grown[i] == samples[i - 1]);
                assert(grown[i + 1] == samples[i]);
            } else {
                assert(grown[1] == samples[0]);
            }
        }
    }
}

} // verus!
