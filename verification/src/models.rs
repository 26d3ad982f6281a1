//! Offers, products and orders, and the transitions that a new snapshot, an
//! operator or a fulfilment event drives them through.

use vstd::prelude::*;
use vstd::string::*;
use vstd::utf8::encode_utf8;
use crate::delta::{
    accumulated_amounts, distinct_keys, key_count, lemma_total_bounds, period_amounts,
    period_deltas, sum_counts, total, zeroed, Amounts, AmountsView, FINE_MAX,
};
use crate::json::{amounts_text, read_amounts};
use crate::ledger::{
    covers, merged, pushed, recent, sample_fits, sum_sales, sum_visitors, Merge, SaleLedger,
    Sample, SAMPLE_LIMIT,
};
use crate::weight::{estimate, estimated_weight, needs_review, review_due};
use crate::text::{decimal, decimal_text};
use crate::tips::{
    flag, flagged, note_if, noted, retain_sticky, sticky_only, CLEAR, DRAFT, NEEDS_REVIEW,
};
use crate::types::{AeError, Failure};

verus! {

/// Seconds of one day.
pub const SECONDS_PER_DAY: i64 = 86_400;

/// Days for which a deleted listing and an old order are kept.
pub const GRACE_DAYS: i64 = 180;

/// Window of the rolling sale count that a listing shows.
pub const MONTH: usize = 30;

/// Window of the sale count by which a slow offer is told.
pub const TWO_MONTHS: usize = 60;

/// A reading of the clock: seconds since the epoch, and the local calendar
/// day written as year * 10000 + month * 100 + day of month.
#[derive(Clone, Copy, Debug, PartialEq, Eq, Structural)]
pub struct Stamp {
    pub seconds: i64,
    pub day: i32,
}

/// The named numbers that steer the reconciliation of an offer.
#[derive(Clone, Copy, Debug, PartialEq, Eq, Structural)]
pub struct Policy {
    /// Age in days beyond which an offer is checked for low sales.
    pub check_offer_sales_after_days: i64,
}

/// Days after which an offer is checked for low sales where the settings
/// name none.
pub const CHECK_OFFER_SALES_AFTER_DAYS: i64 = 90;

impl Policy {
    /// The policy that the settings give: the days they name, or
    /// `CHECK_OFFER_SALES_AFTER_DAYS`.
    pub fn from_setting(days: Option<i64>) -> (policy: Policy)
        ensures
            policy.check_offer_sales_after_days == match days {
                Some(named) => named,
                None => CHECK_OFFER_SALES_AFTER_DAYS,
            },
    {
        Policy {
            check_offer_sales_after_days: match days {
                Some(named) => named,
                None => CHECK_OFFER_SALES_AFTER_DAYS,
            },
        }
    }
}

/// A snapshot of a supplier's listing as the marketplace shows it.
#[derive(Debug)]
pub struct NewOffer {
    pub offer_id: i64,
    pub title: String,
    pub cover: String,
    pub wireless_video_id: i64,
    pub detail_video_id: i64,
    pub model_id: String,
    pub sale30: i64,
    /// JSON text of the remaining quantities by colour, size and SKU.
    pub sale_info: String,
    pub price: i64,
    pub better_price: i64,
    pub sku_info: String,
    pub detail_url: String,
    pub supplier: String,
    pub store_url: String,
    /// Seconds since the epoch at which the promotion ends.
    pub promotion_end: Option<i64>,
}

/// A supplier's listing with its history.
#[derive(Debug)]
pub struct Offer {
    pub id: Option<i64>,
    pub product_id: i64,
    pub sale_record: SaleLedger,
    pub discount: i64,
    pub sku_info_use: String,
    pub detail_url_use: String,
    pub pending: i64,
    pub tips: String,
    pub created_at: Stamp,
    pub updated_at: Stamp,
    pub deleted_at: Option<Stamp>,
    pub offer_id: i64,
    pub title: String,
    pub cover: String,
    pub wireless_video_id: i64,
    pub detail_video_id: i64,
    pub model_id: String,
    pub sale30: i64,
    /// Cumulative sold quantities by colour, size and SKU.
    pub sale_info: Amounts,
    pub price: i64,
    pub better_price: i64,
    pub sku_info: String,
    pub detail_url: String,
    pub supplier: String,
    pub store_url: String,
    pub promotion_end: Option<i64>,
}

/// The discount in percent that `better_price` is on `price`, the division
/// dropping the remainder toward zero.
pub open spec fn discount_of(price: int, better_price: int) -> int {
    let gain = (price - better_price) * 100;
    if gain >= 0 {
        gain / price
    } else {
        -((-gain) / price)
    }
}

/// More than `days` days lie between the two readings of the clock.
pub open spec fn older_than(created: Stamp, now: Stamp, days: int) -> bool {
    now.seconds - created.seconds > days * SECONDS_PER_DAY
}

/// The note on a changed better price: the discount before, an arrow, the
/// discount after, and the words for the change.
pub open spec fn discount_note(before: int, after: int) -> Seq<char> {
    decimal_text(before) + " => "@ + decimal_text(after) + " 折扣价变更"@
}

/// Computes the discount. `None` where it does not fit a 64-bit number.
pub fn discount(price: i64, better_price: i64) -> (percent: Option<i64>)
    requires
        0 < price,
    ensures
        percent == if i64::MIN <= discount_of(price as int, better_price as int) <= i64::MAX {
            Some(discount_of(price as int, better_price as int) as i64)
        } else {
            None
        },
{
    let gain: i128 = (price as i128 - better_price as i128) * 100;
    let percent: i128 = if gain >= 0 {
        gain / price as i128
    } else {
        -((-gain) / price as i128)
    };
    assert(-0x1_0000_0000_0000_0000 * 100 <= percent <= 0x1_0000_0000_0000_0000 * 100)
        by (nonlinear_arith)
        requires
            0 < price,
            -0x1_0000_0000_0000_0000 * 100 <= gain <= 0x1_0000_0000_0000_0000 * 100,
            percent == if gain >= 0 {
                gain as int / price as int
            } else {
                -((-gain) as int / price as int)
            },
    ;
    if percent < i64::MIN as i128 || percent > i64::MAX as i128 {
        None
    } else {
        Some(percent as i64)
    }
}

/// Tells whether more than `days` days lie between two readings.
pub fn is_older_than(created: Stamp, now: Stamp, days: i64) -> (older: bool)
    ensures
        older == older_than(created, now, days as int),
{
    now.seconds as i128 - created.seconds as i128 > days as i128 * SECONDS_PER_DAY as i128
}

/// The sample of the day `day`: the units that the trust filter counts as
/// sold over the fine-grained SKUs since the last reading.
pub open spec fn sample_of(remaining: AmountsView, current: AmountsView, day: i32) -> Sample {
    Sample { date: day, count: total(period_amounts(remaining, current).detail) as i64, visitors: 0 }
}

/// The sales of the day are accounted: the listing is not deleted, and the
/// ledger's newest entry is of another day, or there is none.
pub open spec fn accounts(samples: Seq<Sample>, day: i32, active: bool) -> bool {
    active && !covers(samples, day as int)
}

/// The ledger's samples after a snapshot was taken in on `day`: one more
/// where the sales of the day are accounted, the same otherwise.
pub open spec fn samples_with(
    samples: Seq<Sample>,
    remaining: AmountsView,
    current: AmountsView,
    day: i32,
    active: bool,
) -> Seq<Sample> {
    if accounts(samples, day, active) {
        pushed(samples, sample_of(remaining, current, day))
    } else {
        samples
    }
}

/// The cumulative sold quantities after a snapshot was taken in on `day`:
/// grown by the filter's quantities where the sales of the day are
/// accounted, the same otherwise.
pub open spec fn sums_with(
    samples: Seq<Sample>,
    remaining: AmountsView,
    totals: AmountsView,
    current: AmountsView,
    day: i32,
    active: bool,
) -> Option<AmountsView> {
    if accounts(samples, day, active) {
        accumulated_amounts(totals, period_amounts(remaining, current))
    } else {
        Some(totals)
    }
}

/// The sales of the period fit the ledger and the cumulative counts.
pub open spec fn sales_fit(
    samples: Seq<Sample>,
    remaining: AmountsView,
    totals: AmountsView,
    current: AmountsView,
    day: i32,
    active: bool,
) -> bool {
    &&& accounts(samples, day, active) ==> total(period_amounts(remaining, current).detail)
        <= SAMPLE_LIMIT
    &&& sums_with(samples, remaining, totals, current, day, active).is_some()
}

/// What the filter hands out for one dimension lies between 0 and the clamp.
pub proof fn lemma_deltas_bounded(
    previous: Seq<(Seq<char>, int)>,
    current: Seq<(Seq<char>, int)>,
    max: int,
)
    requires
        0 <= max,
    ensures
        forall|i: int|
            0 <= i < current.len() ==> 0 <= (#[trigger] period_deltas(
                previous,
                current,
                max,
            )[i]).1 <= max,
        0 <= total(period_deltas(previous, current, max)),
{
    lemma_total_bounds(period_deltas(previous, current, max), max);
    assert(0 <= current.len() * max) by (nonlinear_arith)
        requires
            0 <= max,
            0 <= current.len(),
    ;
}

/// Runs the sales accounting of one ingestion. On the first ingestion of a
/// day for a listing that is not deleted, the trust filter compares the new
/// reading with the last one, its quantities are added to the cumulative
/// counts, and the units sold over the fine-grained SKUs become the day's
/// sample. A later ingestion of the same day changes nothing, and a deleted
/// listing's ledger does not grow. Returns `false` where a figure leaves its
/// range; the ledger and the counts are then to be thrown away.
pub fn ingest_sales(
    record: &mut SaleLedger,
    totals: &mut Amounts,
    current: &Amounts,
    day: i32,
    active: bool,
) -> (taken: bool)
    requires
        old(record).wf(),
    ensures
        taken == sales_fit(
            old(record).samples@,
            old(record).remaining@,
            old(totals)@,
            current@,
            day,
            active,
        ),
        taken ==> final(record).wf(),
        taken ==> final(record).samples@ == samples_with(
            old(record).samples@,
            old(record).remaining@,
            current@,
            day,
            active,
        ),
        taken ==> final(record).remaining@ == old(record).remaining@,
        taken ==> Some(final(totals)@) == sums_with(
            old(record).samples@,
            old(record).remaining@,
            old(totals)@,
            current@,
            day,
            active,
        ),
{
    if !active || record.covers_day(day) {
        return true;
    }
    let sold = current.sold_since(&record.remaining);
    proof {
        lemma_deltas_bounded(record.remaining@.detail, current@.detail, FINE_MAX as int);
    }
    let today = match sum_counts(&sold.detail) {
        Some(units) => units,
        None => {
            return false;
        },
    };
    if today > SAMPLE_LIMIT {
        return false;
    }
    let sums = match totals.plus(&sold) {
        Some(sums) => sums,
        None => {
            return false;
        },
    };
    *totals = sums;
    let sample = Sample { date: day, count: today, visitors: 0 };
    record.append_or_merge(sample, Merge::Keep);
    true
}

/// Appends the note on a changed better price to the tips.
pub fn note_discount(tips: &mut String, before: i64, after: i64)
    ensures
        final(tips)@ == noted(old(tips)@, true, discount_note(before as int, after as int)),
{
    let mut note = decimal(before);
    note.append(" => ");
    note.append(decimal(after).as_str());
    note.append(" 折扣价变更");
    note_if(tips, true, note.as_str());
}

impl Offer {
    /// The price is positive and the ledger holds what it may hold.
    pub open spec fn wf(&self) -> bool {
        &&& self.price > 0
        &&& self.sale_record.wf()
    }

    /// The ledger's samples after the snapshot.
    pub open spec fn samples_after(&self, current: AmountsView, now: Stamp) -> Seq<Sample> {
        samples_with(
            self.sale_record.samples@,
            self.sale_record.remaining@,
            current,
            now.day,
            self.deleted_at.is_none(),
        )
    }

    /// The cumulative sold quantities after the snapshot.
    pub open spec fn sums_after(&self, current: AmountsView, now: Stamp) -> Option<AmountsView> {
        sums_with(
            self.sale_record.samples@,
            self.sale_record.remaining@,
            self.sale_info@,
            current,
            now.day,
            self.deleted_at.is_none(),
        )
    }

    /// The offer is old enough to be checked, and sold fewer units over the
    /// 60 newest samples than it has distinct SKUs.
    pub open spec fn low_sales(
        &self,
        current: AmountsView,
        cfg: Policy,
        now: Stamp,
    ) -> bool {
        &&& older_than(self.created_at, now, cfg.check_offer_sales_after_days as int)
        &&& self.sums_after(current, now) matches Some(sums)
        &&& sum_sales(recent(self.samples_after(current, now), TWO_MONTHS as int)) < key_count(
            sums.detail,
            sums.detail.len() as int,
        )
    }

    /// The snapshot can be taken in: no figure leaves its range.
    pub open spec fn reconcilable(
        &self,
        no: &NewOffer,
        current: AmountsView,
        now: Stamp,
    ) -> bool {
        &&& sales_fit(
            self.sale_record.samples@,
            self.sale_record.remaining@,
            self.sale_info@,
            current,
            now.day,
            self.deleted_at.is_none(),
        )
        &&& self.better_price != no.better_price ==> i64::MIN <= discount_of(
            self.price as int,
            no.better_price as int,
        ) <= i64::MAX
    }

    /// The better price has changed, and is now above the price on record.
    pub open spec fn raised(&self, no: &NewOffer) -> bool {
        self.better_price != no.better_price && no.better_price > self.price
    }

    /// The tips after the snapshot: a note for each detected change, in a
    /// fixed order.
    pub open spec fn tips_after(
        &self,
        no: &NewOffer,
        current: AmountsView,
        cfg: Policy,
        now: Stamp,
    ) -> Seq<char> {
        let t1 = noted(self.tips@, self.detail_video_id != no.detail_video_id, "详情视频变更"@);
        let t2 = noted(t1, self.wireless_video_id != no.wireless_video_id, "无线视频变更"@);
        let t3 = noted(t2, self.model_id@ != no.model_id@, "型号变更"@);
        let t4 = noted(t3, self.low_sales(current, cfg, now), "销量低下架否?"@);
        let t5 = noted(
            t4,
            self.better_price != no.better_price,
            discount_note(
                self.discount as int,
                discount_of(self.price as int, no.better_price as int),
            ),
        );
        let t6 = noted(t5, self.raised(no), "手动提价！！"@);
        let t7 = noted(t6, self.sku_info_use@ != no.sku_info@, "SKU变更"@);
        noted(t7, self.detail_url_use@ != no.detail_url@, "详情链接变更"@)
    }

    /// Some change was detected that asks for a review.
    pub open spec fn changed(
        &self,
        no: &NewOffer,
        current: AmountsView,
        cfg: Policy,
        now: Stamp,
    ) -> bool {
        ||| self.detail_video_id != no.detail_video_id
        ||| self.wireless_video_id != no.wireless_video_id
        ||| self.model_id@ != no.model_id@
        ||| self.low_sales(current, cfg, now)
        ||| self.better_price != no.better_price
        ||| self.sku_info_use@ != no.sku_info@
        ||| self.detail_url_use@ != no.detail_url@
    }

    /// `post` is this offer after the snapshot `no`, whose remaining
    /// quantities are `current`, was taken in at `now`.
    pub open spec fn reconciled(
        &self,
        no: &NewOffer,
        current: AmountsView,
        cfg: Policy,
        now: Stamp,
        post: Offer,
    ) -> bool {
        &&& post.id == self.id
        &&& post.product_id == self.product_id
        &&& post.offer_id == self.offer_id
        &&& post.created_at == self.created_at
        &&& post.deleted_at == self.deleted_at
        &&& post.price == self.price
        &&& post.sku_info_use@ == self.sku_info_use@
        &&& post.detail_url_use@ == self.detail_url_use@
        &&& post.updated_at == now
        &&& post.title@ == no.title@
        &&& post.cover@ == no.cover@
        &&& post.detail_url@ == no.detail_url@
        &&& post.supplier@ == no.supplier@
        &&& post.store_url@ == no.store_url@
        &&& post.promotion_end == no.promotion_end
        &&& post.detail_video_id == no.detail_video_id
        &&& post.wireless_video_id == no.wireless_video_id
        &&& post.model_id@ == no.model_id@
        &&& post.sku_info@ == if self.sku_info_use@ != no.sku_info@ {
            no.sku_info@
        } else {
            self.sku_info@
        }
        &&& post.sale_record.samples@ == self.samples_after(current, now)
        &&& post.sale_record.remaining@ == current
        &&& Some(post.sale_info@) == self.sums_after(current, now)
        &&& post.sale30 == sum_sales(recent(post.sale_record.samples@, MONTH as int))
        &&& post.better_price == no.better_price
        &&& post.discount == if self.better_price != no.better_price {
            discount_of(self.price as int, no.better_price as int)
        } else {
            self.discount as int
        }
        &&& post.tips@ == self.tips_after(no, current, cfg, now)
        &&& post.pending == if self.changed(no, current, cfg, now) {
            flagged(self.pending as int)
        } else {
            self.pending as int
        }
    }

    /// Tests what `wf` states.
    pub fn check(&self) -> (good: bool)
        ensures
            good == self.wf(),
    {
        self.price > 0 && self.sale_record.check()
    }

    /// Takes in a snapshot whose remaining quantities have been read as
    /// `current`. Cosmetic fields are overwritten; changed video and model
    /// ids, a changed better price, a better price that has changed to
    /// above the price, and SKU data or a detail link that differ from the
    /// last accepted ones are noted in the tips and ask for a review. On the first ingestion of a
    /// day the trust filter's sold quantities enter the cumulative counts
    /// and the ledger, unless the offer is deleted. Fails, changing nothing,
    /// where a figure leaves its range.
    pub fn reconcile(
        self,
        no: &NewOffer,
        current: Amounts,
        cfg: &Policy,
        now: Stamp,
    ) -> (result: Result<Offer, AeError>)
        requires
            self.wf(),
        ensures
            result is Ok <==> self.reconcilable(no, current@, now),
            result matches Ok(post) ==> self.reconciled(no, current@, *cfg, now, post)
                && post.wf(),
            result matches Err(e) ==> e == AeError(Failure::OutOfRange),
    {
        let mut offer = self;
        offer.updated_at = now;
        offer.title = no.title.clone();
        offer.cover = no.cover.clone();
        let videos = offer.detail_video_id != no.detail_video_id;
        note_if(&mut offer.tips, videos, "详情视频变更");
        offer.detail_video_id = no.detail_video_id;
        let wireless = offer.wireless_video_id != no.wireless_video_id;
        note_if(&mut offer.tips, wireless, "无线视频变更");
        offer.wireless_video_id = no.wireless_video_id;
        let model = offer.model_id != no.model_id;
        note_if(&mut offer.tips, model, "型号变更");
        offer.model_id = no.model_id.clone();
        let active = offer.deleted_at.is_none();
        if !ingest_sales(&mut offer.sale_record, &mut offer.sale_info, &current, now.day, active) {
            return Err(AeError(Failure::OutOfRange));
        }
        offer.sale30 = offer.sale_record.rolling_sum(MONTH);
        let sale60 = offer.sale_record.rolling_sum(TWO_MONTHS);
        let low = is_older_than(offer.created_at, now, cfg.check_offer_sales_after_days) && (
        sale60 as i128) < distinct_keys(&offer.sale_info.detail) as i128;
        note_if(&mut offer.tips, low, "销量低下架否?");
        offer.sale_record.remaining = current;
        offer.detail_url = no.detail_url.clone();
        let repriced = offer.better_price != no.better_price;
        if repriced {
            let percent = match discount(offer.price, no.better_price) {
                Some(percent) => percent,
                None => {
                    return Err(AeError(Failure::OutOfRange));
                },
            };
            note_discount(&mut offer.tips, offer.discount, percent);
            offer.better_price = no.better_price;
            offer.discount = percent;
        }
        let raised = repriced && no.better_price > offer.price;
        note_if(&mut offer.tips, raised, "手动提价！！");
        let skus = offer.sku_info_use != no.sku_info;
        if skus {
            offer.sku_info = no.sku_info.clone();
        }
        note_if(&mut offer.tips, skus, "SKU变更");
        let link = offer.detail_url_use != no.detail_url;
        note_if(&mut offer.tips, link, "详情链接变更");
        if videos || wireless || model || low || repriced || raised || skus || link {
            offer.pending = flag(offer.pending);
        }
        offer.supplier = no.supplier.clone();
        offer.store_url = no.store_url.clone();
        offer.promotion_end = no.promotion_end;
        Ok(offer)
    }

    /// `made` is the offer that the first-seen snapshot `no`, whose
    /// remaining quantities are `current`, gives at `now`: a draft with the
    /// sticky draft tip, nothing sold yet, and a ledger that starts with an
    /// empty sample of the day.
    pub open spec fn created(no: &NewOffer, current: AmountsView, now: Stamp, made: Offer) -> bool {
        &&& made.id.is_none()
        &&& made.product_id == 0
        &&& made.sale_record.samples@ == seq![Sample { date: now.day, count: 0, visitors: 0 }]
        &&& made.sale_record.remaining@ == current
        &&& made.discount == discount_of(no.price as int, no.better_price as int)
        &&& made.sku_info_use@ == no.sku_info@
        &&& made.detail_url_use@ == no.detail_url@
        &&& made.pending == DRAFT
        &&& made.tips@ == "!草稿箱;"@
        &&& made.created_at == now
        &&& made.updated_at == now
        &&& made.deleted_at.is_none()
        &&& made.offer_id == no.offer_id
        &&& made.title@ == no.title@
        &&& made.cover@ == no.cover@
        &&& made.wireless_video_id == no.wireless_video_id
        &&& made.detail_video_id == no.detail_video_id
        &&& made.model_id@ == no.model_id@
        &&& made.sale30 == 0
        &&& made.sale_info@ == (AmountsView {
            color: zeroed(current.color),
            size: zeroed(current.size),
            detail: zeroed(current.detail),
        })
        &&& made.price == no.price
        &&& made.better_price == no.better_price
        &&& made.sku_info@ == no.sku_info@
        &&& made.detail_url@ == no.detail_url@
        &&& made.supplier@ == no.supplier@
        &&& made.store_url@ == no.store_url@
        &&& made.promotion_end == no.promotion_end
    }

    /// Why a first-seen snapshot is refused, if it is: its price is not
    /// positive, or its discount does not fit.
    pub open spec fn refusal(no: &NewOffer) -> Option<Failure> {
        if no.price <= 0 {
            Some(Failure::PriceNotPositive)
        } else if !(i64::MIN <= discount_of(no.price as int, no.better_price as int)
            <= i64::MAX) {
            Some(Failure::OutOfRange)
        } else {
            None
        }
    }

    /// Makes the offer of a first-seen snapshot whose remaining quantities
    /// have been read as `current`.
    pub fn create(no: &NewOffer, current: Amounts, now: Stamp) -> (result: Result<Offer, AeError>)
        ensures
            match result {
                Ok(made) => Offer::refusal(no).is_none() && Offer::created(no, current@, now, made)
                    && made.wf(),
                Err(e) => Offer::refusal(no) == Some(e.0),
            },
    {
        if no.price <= 0 {
            return Err(AeError(Failure::PriceNotPositive));
        }
        let percent = match discount(no.price, no.better_price) {
            Some(percent) => percent,
            None => {
                return Err(AeError(Failure::OutOfRange));
            },
        };
        let sale_info = current.zeros();
        let mut sale_record = SaleLedger::new(current);
        sale_record.samples.push(Sample { date: now.day, count: 0, visitors: 0 });
        assert(sale_record.samples@ =~= seq![Sample { date: now.day, count: 0, visitors: 0 }]);
        Ok(
            Offer {
                id: None,
                product_id: 0,
                sale_record,
                discount: percent,
                sku_info_use: no.sku_info.clone(),
                detail_url_use: no.detail_url.clone(),
                pending: DRAFT,
                tips: String::from_str("!草稿箱;"),
                created_at: now,
                updated_at: now,
                deleted_at: None,
                offer_id: no.offer_id,
                title: no.title.clone(),
                cover: no.cover.clone(),
                wireless_video_id: no.wireless_video_id,
                detail_video_id: no.detail_video_id,
                model_id: no.model_id.clone(),
                sale30: 0,
                sale_info,
                price: no.price,
                better_price: no.better_price,
                sku_info: no.sku_info.clone(),
                detail_url: no.detail_url.clone(),
                supplier: no.supplier.clone(),
                store_url: no.store_url.clone(),
                promotion_end: no.promotion_end,
            },
        )
    }

    /// Makes the offer of a first-seen snapshot. The snapshot's remaining
    /// quantities are read from their JSON text first: a text that is
    /// refused, or that lacks a dimension, makes the snapshot malformed.
    pub fn new(no: &NewOffer, now: Stamp) -> (result: Result<Offer, AeError>)
        ensures
            match amounts_text(no.sale_info@) {
                None => result == Err::<Offer, AeError>(AeError(Failure::Malformed)),
                Some(current) => match result {
                    Ok(made) => Offer::refusal(no).is_none() && Offer::created(
                        no,
                        current,
                        now,
                        made,
                    ) && made.wf(),
                    Err(e) => Offer::refusal(no) == Some(e.0),
                },
            },
    {
        match read_amounts(no.sale_info.as_str()) {
            Some(current) => Offer::create(no, current, now),
            None => Err(AeError(Failure::Malformed)),
        }
    }

    /// Takes in a later snapshot of the listing. The snapshot's remaining
    /// quantities are read from their JSON text first: a text that is
    /// refused, or that lacks a dimension, makes the snapshot malformed.
    /// What follows is `reconcile`.
    pub fn update(self, no: &NewOffer, cfg: &Policy, now: Stamp) -> (result: Result<
        Offer,
        AeError,
    >)
        requires
            self.wf(),
        ensures
            match amounts_text(no.sale_info@) {
                None => result == Err::<Offer, AeError>(AeError(Failure::Malformed)),
                Some(current) => {
                    &&& result is Ok <==> self.reconcilable(no, current, now)
                    &&& result matches Ok(post) ==> self.reconciled(no, current, *cfg, now, post)
                        && post.wf()
                    &&& result matches Err(e) ==> e == AeError(Failure::OutOfRange)
                },
            },
    {
        match read_amounts(no.sale_info.as_str()) {
            Some(current) => self.reconcile(no, current, cfg, now),
            None => Err(AeError(Failure::Malformed)),
        }
    }

    /// The operator sets the review flag. Setting it to clear keeps the
    /// sticky tips alone and accepts the live SKU data and detail link as
    /// the baselines of later change detection; any other flag is stored as
    /// it is.
    pub fn set_pending(&mut self, pending: i64)
        ensures
            final(self).pending == pending,
            final(self).tips@ == if pending == CLEAR {
                sticky_only(old(self).tips@)
            } else {
                old(self).tips@
            },
            final(self).sku_info_use@ == if pending == CLEAR {
                old(self).sku_info@
            } else {
                old(self).sku_info_use@
            },
            final(self).detail_url_use@ == if pending == CLEAR {
                old(self).detail_url@
            } else {
                old(self).detail_url_use@
            },
            *final(self) == (Offer {
                pending: final(self).pending,
                tips: final(self).tips,
                sku_info_use: final(self).sku_info_use,
                detail_url_use: final(self).detail_url_use,
                ..*old(self)
            }),
    {
        if pending == CLEAR {
            self.tips = retain_sticky(self.tips.as_str());
            self.sku_info_use = self.sku_info.clone();
            self.detail_url_use = self.detail_url.clone();
        }
        self.pending = pending;
    }
}

/// Taking in the same snapshot again on the same day leaves the ledger, the
/// cumulative sold quantities and both rolling sale counts as the first
/// ingestion of that day left them.
pub proof fn lemma_same_day_idempotent(
    first: Offer,
    no: &NewOffer,
    current: AmountsView,
    cfg: Policy,
    now: Stamp,
    later: Stamp,
    second: Offer,
    third: Offer,
)
    requires
        first.reconciled(no, current, cfg, now, second),
        second.reconciled(no, current, cfg, later, third),
        later.day == now.day,
    ensures
        third.sale_record.samples@ == second.sale_record.samples@,
        third.sale_record.samples@.len() == second.sale_record.samples@.len(),
        third.sale_info@ == second.sale_info@,
        third.sale30 == second.sale30,
        sum_sales(recent(third.sale_record.samples@, TWO_MONTHS as int)) == sum_sales(
            recent(second.sale_record.samples@, TWO_MONTHS as int),
        ),
{
    let samples = first.sale_record.samples@;
    if accounts(samples, now.day, first.deleted_at.is_none()) {
        let sample = sample_of(first.sale_record.remaining@, current, now.day);
        assert((seq![sample] + samples)[0] == sample);
        assert(pushed(samples, sample)[0] == sample);
    }
    assert(!accounts(second.sale_record.samples@, later.day, second.deleted_at.is_none()));
}

/// Right after a change of the better price the discount is the gain on the
/// price in percent, the remainder dropped toward zero.
pub proof fn lemma_discount_after_change(
    pre: Offer,
    no: &NewOffer,
    current: AmountsView,
    cfg: Policy,
    now: Stamp,
    post: Offer,
)
    requires
        pre.price > 0,
        pre.reconciled(no, current, cfg, now, post),
        pre.better_price != no.better_price,
    ensures
        post.discount == discount_of(post.price as int, post.better_price as int),
        post.price >= post.better_price ==> post.discount == ((post.price - post.better_price)
            * 100) / (post.price as int),
        post.price < post.better_price ==> post.discount == -(((post.better_price - post.price)
            * 100) / (post.price as int)),
{
    assert(-((post.price - post.better_price) * 100) == (post.better_price - post.price) * 100)
        by (nonlinear_arith);
}


/// An offer whose discount is the gain of its better price on its price
/// keeps that through every snapshot, and its price stays what it was.
pub proof fn lemma_discount_is_kept(
    pre: Offer,
    no: &NewOffer,
    current: AmountsView,
    cfg: Policy,
    now: Stamp,
    post: Offer,
)
    requires
        pre.reconciled(no, current, cfg, now, post),
        pre.discount == discount_of(pre.price as int, pre.better_price as int),
    ensures
        post.discount == discount_of(post.price as int, post.better_price as int),
        post.price == pre.price,
{
}

/// A snapshot of a customer-facing listing.
#[derive(Debug)]
pub struct NewProduct {
    pub product_id: i64,
    pub title: String,
    pub cover: String,
    pub price: i64,
    /// JSON text of the stock by colour and size.
    pub stock_info: String,
    pub model_id: String,
}

/// A customer-facing listing with its history, stock and weight estimate.
#[derive(Debug)]
pub struct Product {
    pub id: Option<i64>,
    pub uv30: i64,
    pub sales30: i64,
    pub sale_record: SaleLedger,
    pub offer_id: i64,
    pub discount: i64,
    pub stock_count: i64,
    pub sale_count: i64,
    /// JSON text of the sold units by colour and size.
    pub sale_info: String,
    /// Measured grams over all the measured units.
    pub sale_weight: i64,
    /// Units whose weight was measured.
    pub weight_cal_count: i64,
    pub weight: i64,
    pub inited_weight: i64,
    pub pending: i64,
    pub tips: String,
    pub created_at: Stamp,
    pub updated_at: Stamp,
    pub deleted_at: Option<Stamp>,
    pub product_id: i64,
    pub title: String,
    pub cover: String,
    pub price: i64,
    /// JSON text of the stock by colour and size.
    pub stock_info: String,
    pub model_id: String,
}

/// The thresholds of the visitor and sales import.
#[derive(Clone, Copy, Debug, PartialEq, Eq, Structural)]
pub struct ImportPolicy {
    /// Age in days beyond which a product is judged by its visitors.
    pub analysis_before: i64,
    /// Visitors over the 30 newest samples below which an old product goes
    /// back to draft.
    pub unpublish_barrier_uv30: i64,
}

/// Days after which a product is judged by its visitors where the settings
/// name none.
pub const ANALYSIS_BEFORE: i64 = 180;

/// Visitors below which an old product goes back to draft where the settings
/// name none.
pub const UNPUBLISH_BARRIER_UV30: i64 = 10;

impl ImportPolicy {
    /// The policy that the settings give: what they name, and the defaults
    /// for what they do not.
    pub fn from_settings(analysis_before: Option<i64>, barrier: Option<i64>) -> (policy:
        ImportPolicy)
        ensures
            policy.analysis_before == match analysis_before {
                Some(named) => named,
                None => ANALYSIS_BEFORE,
            },
            policy.unpublish_barrier_uv30 == match barrier {
                Some(named) => named,
                None => UNPUBLISH_BARRIER_UV30,
            },
    {
        ImportPolicy {
            analysis_before: match analysis_before {
                Some(named) => named,
                None => ANALYSIS_BEFORE,
            },
            unpublish_barrier_uv30: match barrier {
                Some(named) => named,
                None => UNPUBLISH_BARRIER_UV30,
            },
        }
    }
}

impl Product {
    /// The measured totals are not negative and the ledger holds what it may
    /// hold.
    pub open spec fn wf(&self) -> bool {
        &&& 0 <= self.sale_weight
        &&& 0 <= self.weight_cal_count
        &&& self.sale_record.wf()
    }

    /// Tests what `wf` states.
    pub fn check(&self) -> (good: bool)
        ensures
            good == self.wf(),
    {
        0 <= self.sale_weight && 0 <= self.weight_cal_count && self.sale_record.check()
    }

    /// Makes the product of a first-seen snapshot: a draft without history,
    /// whose sold units start from the snapshot's stock text.
    pub fn new(np: &NewProduct, now: Stamp) -> (made: Product)
        ensures
            made.wf(),
            made.id.is_none(),
            made.uv30 == 0 && made.sales30 == 0,
            made.sale_record.samples@.len() == 0,
            made.offer_id == 0 && made.discount == 0,
            made.stock_count == 0 && made.sale_count == 0,
            made.sale_info@ == np.stock_info@,
            made.sale_weight == 0 && made.weight_cal_count == 0 && made.weight == 0,
            made.inited_weight == 0,
            made.pending == DRAFT,
            made.tips@.len() == 0,
            made.created_at == now && made.updated_at == now,
            made.deleted_at.is_none(),
            made.product_id == np.product_id,
            made.title@ == np.title@,
            made.cover@ == np.cover@,
            made.price == np.price,
            made.stock_info@ == np.stock_info@,
            made.model_id@ == np.model_id@,
    {
        let nothing = Amounts { color: Vec::new(), size: Vec::new(), detail: Vec::new() };
        Product {
            id: None,
            uv30: 0,
            sales30: 0,
            sale_record: SaleLedger::new(nothing),
            offer_id: 0,
            discount: 0,
            stock_count: 0,
            sale_count: 0,
            sale_info: np.stock_info.clone(),
            sale_weight: 0,
            weight_cal_count: 0,
            weight: 0,
            inited_weight: 0,
            pending: DRAFT,
            tips: String::new(),
            created_at: now,
            updated_at: now,
            deleted_at: None,
            product_id: np.product_id,
            title: np.title.clone(),
            cover: np.cover.clone(),
            price: np.price,
            stock_info: np.stock_info.clone(),
            model_id: np.model_id.clone(),
        }
    }

    /// The snapshot seeds stock and sold units: the product has no stock
    /// text yet and the snapshot brings one of more than one byte.
    pub open spec fn seeds(&self, np: &NewProduct) -> bool {
        encode_utf8(self.stock_info@).len() < 1 && encode_utf8(np.stock_info@).len() > 1
    }

    /// Takes in a later snapshot: title, cover, price and model id are
    /// overwritten, stock and sold units are seeded once, and all the rest
    /// stays.
    pub fn update(self, np: &NewProduct, now: Stamp) -> (post: Product)
        ensures
            post.title@ == np.title@,
            post.cover@ == np.cover@,
            post.price == np.price,
            post.model_id@ == np.model_id@,
            post.updated_at == now,
            post.stock_info@ == if self.seeds(np) {
                np.stock_info@
            } else {
                self.stock_info@
            },
            post.sale_info@ == if self.seeds(np) {
                np.stock_info@
            } else {
                self.sale_info@
            },
            post.id == self.id,
            post.uv30 == self.uv30 && post.sales30 == self.sales30,
            post.sale_record == self.sale_record,
            post.offer_id == self.offer_id && post.discount == self.discount,
            post.stock_count == self.stock_count && post.sale_count == self.sale_count,
            post.sale_weight == self.sale_weight,
            post.weight_cal_count == self.weight_cal_count,
            post.weight == self.weight && post.inited_weight == self.inited_weight,
            post.pending == self.pending,
            post.tips@ == self.tips@,
            post.created_at == self.created_at && post.deleted_at == self.deleted_at,
            post.product_id == self.product_id,
    {
        let mut product = self;
        product.title = np.title.clone();
        product.cover = np.cover.clone();
        product.price = np.price;
        if product.stock_info.as_str().as_bytes().len() < 1 && np.stock_info.as_str().as_bytes().len()
            > 1 {
            product.stock_info = np.stock_info.clone();
            product.sale_info = np.stock_info.clone();
        }
        product.model_id = np.model_id.clone();
        product.updated_at = now;
        product
    }

    /// The measurement of `items` units weighing `weight` grams together can
    /// enter the estimate: the figures are sound, the weight ratio is not 0,
    /// and every sum and the estimate fit.
    pub open spec fn measurable(&self, weight: int, items: int, ratio: int) -> bool {
        &&& 0 <= weight
        &&& 0 < items
        &&& self.sale_weight + weight <= i64::MAX
        &&& self.weight_cal_count + items <= i64::MAX
        &&& ratio != 0
        &&& i64::MIN <= estimated_weight(
            self.sale_weight + weight,
            self.weight_cal_count + items,
            ratio,
        ) <= i64::MAX
    }

    /// Takes a measured weight into the estimate: the measured grams and
    /// units grow, the weight is estimated anew, and the product needs a
    /// review where the new count of units is due for one. Refused, with
    /// nothing changed, where a figure is unsound or leaves its range.
    pub fn add_measurement(&mut self, weight: i64, items: i64, ratio: i64, period: i64) -> (result:
        Result<(), AeError>)
        requires
            old(self).wf(),
            0 < period,
        ensures
            result is Ok <==> old(self).measurable(weight as int, items as int, ratio as int),
            result matches Err(e) ==> e == AeError(Failure::OutOfRange) && *final(self) == *old(
                self,
            ),
            result is Ok ==> {
                &&& final(self).wf()
                &&& final(self).sale_weight == old(self).sale_weight + weight
                &&& final(self).weight_cal_count == old(self).weight_cal_count + items
                &&& final(self).weight == estimated_weight(
                    final(self).sale_weight as int,
                    final(self).weight_cal_count as int,
                    ratio as int,
                )
                &&& final(self).pending == if review_due(
                    old(self).weight_cal_count as int,
                    final(self).weight_cal_count as int,
                    period as int,
                ) {
                    NEEDS_REVIEW
                } else {
                    old(self).pending
                }
                &&& *final(self) == (Product {
                    sale_weight: final(self).sale_weight,
                    weight_cal_count: final(self).weight_cal_count,
                    weight: final(self).weight,
                    pending: final(self).pending,
                    ..*old(self)
                })
            },
    {
        if weight < 0 || items <= 0 || ratio == 0 {
            return Err(AeError(Failure::OutOfRange));
        }
        let grams = match self.sale_weight.checked_add(weight) {
            Some(grams) => grams,
            None => {
                return Err(AeError(Failure::OutOfRange));
            },
        };
        let units = match self.weight_cal_count.checked_add(items) {
            Some(units) => units,
            None => {
                return Err(AeError(Failure::OutOfRange));
            },
        };
        let estimated = match estimate(grams, units, ratio) {
            Some(estimated) => estimated,
            None => {
                return Err(AeError(Failure::OutOfRange));
            },
        };
        let due = needs_review(self.weight_cal_count, units, period);
        self.sale_weight = grams;
        self.weight_cal_count = units;
        self.weight = estimated;
        if due {
            self.pending = NEEDS_REVIEW;
        }
        Ok(())
    }

    /// Takes in the visitors and sales of one day from the import. On the
    /// day of the newest entry the ledger stays as it is; on another day the
    /// sample becomes the newest entry. Both rolling figures are the sums
    /// over the 30 newest samples, or over all where there are fewer. A
    /// product older than the policy's days whose visitors stay below the
    /// barrier goes back to draft.
    pub fn record_sample(&mut self, sample: Sample, policy: &ImportPolicy, now: Stamp)
        requires
            old(self).wf(),
            sample_fits(sample),
        ensures
            final(self).wf(),
            final(self).sale_record.samples@ == merged(
                old(self).sale_record.samples@,
                sample,
                Merge::Keep,
            ),
            final(self).uv30 == sum_visitors(recent(final(self).sale_record.samples@, MONTH as int)),
            final(self).sales30 == sum_sales(recent(final(self).sale_record.samples@, MONTH as int)),
            final(self).updated_at == now,
            final(self).pending == if older_than(
                old(self).created_at,
                now,
                policy.analysis_before as int,
            ) && final(self).uv30 < policy.unpublish_barrier_uv30 {
                DRAFT
            } else {
                old(self).pending
            },
            final(self).sale_record.remaining == old(self).sale_record.remaining,
            *final(self) == (Product {
                sale_record: final(self).sale_record,
                uv30: final(self).uv30,
                sales30: final(self).sales30,
                updated_at: final(self).updated_at,
                pending: final(self).pending,
                ..*old(self)
            }),
    {
        self.sale_record.append_or_merge(sample, Merge::Keep);
        self.uv30 = self.sale_record.rolling_visitors(MONTH);
        self.sales30 = self.sale_record.rolling_sum(MONTH);
        self.updated_at = now;
        if is_older_than(self.created_at, now, policy.analysis_before) && self.uv30
            < policy.unpublish_barrier_uv30 {
            self.pending = DRAFT;
        }
    }
}

/// A snapshot of an order.
#[derive(Debug)]
pub struct NewOrder {
    pub order_id: i64,
    pub remark: String,
    pub product_num: i64,
    pub item_num: i64,
    /// JSON text that maps each product id to the SKUs and quantities
    /// ordered of it.
    pub products: String,
}

/// A fulfilment record.
#[derive(Debug)]
pub struct Order {
    pub id: Option<i64>,
    pub lg_order_id: Option<String>,
    /// Measured shipping weight; 0 until it is measured.
    pub weight: i64,
    pub used_stock: String,
    pub created_at: Stamp,
    pub updated_at: Stamp,
    pub order_id: i64,
    pub remark: String,
    pub product_num: i64,
    pub item_num: i64,
    pub products: String,
}

impl Order {
    /// Makes the record of a first-seen order: not yet handed to the
    /// logistics provider, not yet weighed, no stock used.
    pub fn new(no: &NewOrder, now: Stamp) -> (made: Order)
        ensures
            made.id.is_none(),
            made.lg_order_id.is_none(),
            made.weight == 0,
            made.used_stock@.len() == 0,
            made.created_at == now && made.updated_at == now,
            made.order_id == no.order_id,
            made.remark@ == no.remark@,
            made.product_num == no.product_num,
            made.item_num == no.item_num,
            made.products@ == no.products@,
    {
        Order {
            id: None,
            lg_order_id: None,
            weight: 0,
            used_stock: String::new(),
            created_at: now,
            updated_at: now,
            order_id: no.order_id,
            remark: no.remark.clone(),
            product_num: no.product_num,
            item_num: no.item_num,
            products: no.products.clone(),
        }
    }

    /// Takes in a later snapshot: the remark alone is overwritten.
    pub fn update(&mut self, no: &NewOrder, now: Stamp)
        ensures
            final(self).remark@ == no.remark@,
            final(self).updated_at == now,
            final(self).id == old(self).id,
            final(self).lg_order_id == old(self).lg_order_id,
            final(self).weight == old(self).weight,
            final(self).used_stock == old(self).used_stock,
            final(self).created_at == old(self).created_at,
            final(self).order_id == old(self).order_id,
            final(self).product_num == old(self).product_num,
            final(self).item_num == old(self).item_num,
            final(self).products == old(self).products,
    {
        self.remark = no.remark.clone();
        self.updated_at = now;
    }

    /// The measured weight can be attributed to one product: the order is
    /// of a single product and was shipped whole.
    pub open spec fn attributable(&self, item_num: int) -> bool {
        self.product_num == 1 && item_num == self.item_num
    }

    /// Tells whether a measured weight can be attributed to one product.
    pub fn is_attributable(&self, item_num: i64) -> (single: bool)
        ensures
            single == self.attributable(item_num as int),
    {
        self.product_num == 1 && item_num == self.item_num
    }

    /// Tells whether recording a weight asks for the order's product: the
    /// order has no weight yet, and the weight can be attributed.
    pub fn asks_product(&self, item_num: i64) -> (asks: bool)
        ensures
            asks == (self.weight == 0 && self.attributable(item_num as int)),
    {
        self.weight == 0 && self.is_attributable(item_num)
    }

    /// Records the measured shipping weight, once. An order that has a
    /// weight is refused and stays as it is. Otherwise the weight is stored,
    /// and the result tells whether it can be attributed to one product.
    pub fn measure(&mut self, weight: i64, item_num: i64, now: Stamp) -> (result: Result<
        bool,
        AeError,
    >)
        ensures
            match result {
                Err(e) => e == AeError(Failure::AlreadyMeasured) && old(self).weight != 0
                    && *final(self) == *old(self),
                Ok(single) => {
                    &&& old(self).weight == 0
                    &&& single == old(self).attributable(item_num as int)
                    &&& final(self).weight == weight
                    &&& final(self).updated_at == now
                    &&& final(self).id == old(self).id
                    &&& final(self).lg_order_id == old(self).lg_order_id
                    &&& final(self).used_stock == old(self).used_stock
                    &&& final(self).created_at == old(self).created_at
                    &&& final(self).order_id == old(self).order_id
                    &&& final(self).remark == old(self).remark
                    &&& final(self).product_num == old(self).product_num
                    &&& final(self).item_num == old(self).item_num
                    &&& final(self).products == old(self).products
                },
            },
    {
        if self.weight != 0 {
            return Err(AeError(Failure::AlreadyMeasured));
        }
        self.weight = weight;
        self.updated_at = now;
        Ok(self.is_attributable(item_num))
    }
}

} // verus!
